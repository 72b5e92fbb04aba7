//! Conway's Game of Life on a fixed-size toroidal grid.
//!
//! A [`Universe`] owns a row-major buffer of cells, each [`Cell::Dead`] or
//! [`Cell::Alive`]. Every generation, each cell looks at its eight toroidal
//! neighbors (rows and columns both wrap around) and changes state by the
//! classic rule: a live cell survives with two or three live neighbors, a
//! dead cell comes alive with exactly three. The whole grid advances
//! synchronously: every neighbor count is taken against the old generation.

use vstd::arithmetic::div_mod::lemma_fundamental_div_mod;
use vstd::arithmetic::div_mod::lemma_mod_division_less_than_divisor;
use vstd::arithmetic::div_mod::lemma_multiply_divide_lt;
use vstd::prelude::*;

pub mod laws;
mod rng;

verus! {

/// Side, in display pixels, of the square one cell occupies when drawn.
pub const CELL_SIZE: u64 = 10;

/// The state of one grid cell: every cell is either dead or alive,
/// and nothing else.
#[derive(Clone, Copy, Debug, PartialEq, Eq, Structural)]
pub enum Cell {
    Dead,
    Alive,
}

/// The weight of a cell in a neighbor count: an alive cell counts as one,
/// a dead cell as zero.
pub open spec fn cell_val(c: Cell) -> nat {
    match c {
        Cell::Dead => 0,
        Cell::Alive => 1,
    }
}

/// What one manual toggle does to a cell.
pub open spec fn toggle(c: Cell) -> Cell {
    match c {
        Cell::Dead => Cell::Alive,
        Cell::Alive => Cell::Dead,
    }
}

/// The cell of row-major buffer `s` (with `w` columns) at `row`, `col`.
pub open spec fn at(s: Seq<Cell>, w: int, row: int, col: int) -> Cell {
    s[row * w + col]
}

/// The weight contributed to the neighbor count of `(row, col)` by the
/// cell at row offset `dr` and column offset `dc`, both taken modulo the
/// grid dimensions.
pub open spec fn wrapped_neighbor_val(
    s: Seq<Cell>,
    w: int,
    h: int,
    row: int,
    col: int,
    dr: int,
    dc: int,
) -> nat {
    cell_val(at(s, w, (row + dr) % h, (col + dc) % w))
}

/// The number of live cells among the eight toroidal neighbors of
/// `(row, col)`: the row offsets range over `{h - 1, 0, 1}` and the column
/// offsets over `{w - 1, 0, 1}` (an offset of `h - 1` modulo `h` is one
/// step up; using it instead of `-1` keeps every coordinate nonnegative),
/// skipping the zero-zero offset, which is the cell itself. On a grid with
/// fewer than three rows or columns, distinct offsets can wrap to the same
/// cell, which is then counted once per offset; a cell is never counted
/// as its own neighbor.
pub open spec fn neighbor_count(s: Seq<Cell>, w: int, h: int, row: int, col: int) -> nat {
    wrapped_neighbor_val(s, w, h, row, col, h - 1, w - 1)
        + wrapped_neighbor_val(s, w, h, row, col, h - 1, 0)
        + wrapped_neighbor_val(s, w, h, row, col, h - 1, 1)
        + wrapped_neighbor_val(s, w, h, row, col, 0, w - 1)
        + wrapped_neighbor_val(s, w, h, row, col, 0, 1)
        + wrapped_neighbor_val(s, w, h, row, col, 1, w - 1)
        + wrapped_neighbor_val(s, w, h, row, col, 1, 0)
        + wrapped_neighbor_val(s, w, h, row, col, 1, 1)
}

/// The transition rule of the automaton, applied to one cell with its
/// live-neighbor count: a live cell survives on two or three live
/// neighbors and otherwise dies; a dead cell comes alive on exactly three.
pub open spec fn next_cell(c: Cell, live_neighbors: nat) -> Cell {
    match c {
        Cell::Alive => if live_neighbors == 2 || live_neighbors == 3 {
            Cell::Alive
        } else {
            Cell::Dead
        },
        Cell::Dead => if live_neighbors == 3 {
            Cell::Alive
        } else {
            Cell::Dead
        },
    }
}

/// One synchronous generation of the whole grid: every cell of the result
/// is the transition rule applied to the corresponding old cell and its
/// neighbor count in the old buffer.
pub open spec fn step(s: Seq<Cell>, w: int, h: int) -> Seq<Cell> {
    Seq::new(s.len(), |i: int| next_cell(s[i], neighbor_count(s, w, h, i / w, i % w)))
}

/// `n` synchronous generations in sequence.
pub open spec fn step_n(s: Seq<Cell>, w: int, h: int, n: nat) -> Seq<Cell>
    decreases n,
{
    if n == 0 {
        s
    } else {
        step(step_n(s, w, h, (n - 1) as nat), w, h)
    }
}

/// The pixel origins of the live cells of row-major buffer `s` (with `w`
/// columns), in index order: a cell at index `i` is drawn at column
/// `(i % w) * CELL_SIZE` and row `(i / w) * CELL_SIZE`, and only live
/// cells are drawn.
pub open spec fn live_rects(s: Seq<Cell>, w: int) -> Seq<(u64, u64)>
    decreases s.len(),
{
    if s.len() == 0 {
        Seq::empty()
    } else {
        let i = s.len() - 1;
        let prefix = live_rects(s.drop_last(), w);
        if s.last() == Cell::Alive {
            prefix.push((((i % w) * (CELL_SIZE as int)) as u64, ((i / w) * (CELL_SIZE as int)) as u64))
        } else {
            prefix
        }
    }
}

/// The grid: a fixed width and height and a row-major cell buffer of
/// length exactly `width * height`.
pub struct Universe {
    pub width: u32,
    pub height: u32,
    pub cells: Vec<Cell>,
}

impl Universe {
    /// A well-formed universe: positive dimensions and a buffer of exactly
    /// one cell per grid position.
    pub open spec fn wf(&self) -> bool {
        &&& self.width >= 1
        &&& self.height >= 1
        &&& self.cells@.len() == (self.width as int) * (self.height as int)
    }

    /// The row-major index of the cell at `row`, `column`.
    pub fn get_index(&self, row: u32, column: u32) -> (idx: usize)
        requires
            self.wf(),
            row < self.height,
            column < self.width,
        ensures
            idx == row * self.width + column,
            idx < self.cells@.len(),
    {
        proof {
            assert((row as int) * (self.width as int) + (column as int) < (self.width as int) * (
            self.height as int)) by (nonlinear_arith)
                requires
                    (row as int) < (self.height as int),
                    (column as int) < (self.width as int),
                    (self.width as int) >= 1,
            ;
        }
        // Reading the length as a usize tells the verifier the whole
        // buffer, and so every index below it, fits the machine word.
        let total = self.cells.len();
        (row as usize) * (self.width as usize) + (column as usize)
    }

    /// The weight of the neighbor at row offset `dr` and column offset `dc`
    /// from `(row, col)`, with both coordinates wrapped around the torus.
    fn wrapped_value(&self, row: u32, col: u32, dr: u32, dc: u32) -> (v: u8)
        requires
            self.wf(),
            row < self.height,
            col < self.width,
        ensures
            v == wrapped_neighbor_val(
                self.cells@,
                self.width as int,
                self.height as int,
                row as int,
                col as int,
                dr as int,
                dc as int,
            ),
            v <= 1,
    {
        let nr = (((row as u64) + (dr as u64)) % (self.height as u64)) as u32;
        let nc = (((col as u64) + (dc as u64)) % (self.width as u64)) as u32;
        proof {
            lemma_mod_division_less_than_divisor(row + dr, self.height as int);
            lemma_mod_division_less_than_divisor(col + dc, self.width as int);
        }
        let idx = self.get_index(nr, nc);
        match self.cells[idx] {
            Cell::Alive => 1,
            Cell::Dead => 0,
        }
    }

    /// The number of live cells among the eight toroidal neighbors of
    /// `(row, column)` in the current generation.
    pub fn live_neighbor_count(&self, row: u32, column: u32) -> (n: u8)
        requires
            self.wf(),
            row < self.height,
            column < self.width,
        ensures
            n == neighbor_count(
                self.cells@,
                self.width as int,
                self.height as int,
                row as int,
                column as int,
            ),
            n <= 8,
    {
        let up = self.height - 1;
        let left = self.width - 1;
        let mut count: u8 = self.wrapped_value(row, column, up, left);
        count += self.wrapped_value(row, column, up, 0);
        count += self.wrapped_value(row, column, up, 1);
        count += self.wrapped_value(row, column, 0, left);
        count += self.wrapped_value(row, column, 0, 1);
        count += self.wrapped_value(row, column, 1, left);
        count += self.wrapped_value(row, column, 1, 0);
        count += self.wrapped_value(row, column, 1, 1);
        count
    }

    /// The state a freshly seeded cell takes for one random draw: alive
    /// exactly when the draw falls below the threshold. The draw itself
    /// comes from the pseudo-random source; this decision is all the logic
    /// construction applies to it.
    pub fn seeded_cell(draw: u64, alive_threshold: u64) -> (c: Cell)
        ensures
            c == (if draw < alive_threshold {
                Cell::Alive
            } else {
                Cell::Dead
            }),
    {
        if draw < alive_threshold {
            Cell::Alive
        } else {
            Cell::Dead
        }
    }

    /// Construct a universe of the given dimensions, seeding every cell
    /// from a pseudo-random source: a cell starts alive exactly when its
    /// draw falls below `alive_threshold`, so a zero threshold gives an
    /// all-dead grid and larger thresholds give proportionally denser ones.
    /// The source asks for a nonzero seed; successive constructions with
    /// different seeds are expected to differ, and nothing is promised
    /// about the pattern a nonzero threshold produces.
    pub fn new(width: u32, height: u32, alive_threshold: u64, seed: u64) -> (u: Universe)
        requires
            1 <= width,
            1 <= height,
            (width as int) * (height as int) <= u32::MAX,
            seed != 0,
        ensures
            u.wf(),
            u.width == width,
            u.height == height,
            u.cells@.len() == (width as int) * (height as int),
            alive_threshold == 0 ==> forall|k: int|
                0 <= k < u.cells@.len() ==> u.cells@[k] == Cell::Dead,
    {
        let source = rng::fresh_source();
        let mut source = rng::seed_source(source, seed);
        let total = ((width as u64) * (height as u64)) as usize;
        let mut cells: Vec<Cell> = Vec::new();
        let mut i: usize = 0;
        while i < total
            invariant
                i <= total,
                total == (width as int) * (height as int),
                cells@.len() == i,
                alive_threshold == 0 ==> forall|k: int|
                    0 <= k < cells@.len() ==> cells@[k] == Cell::Dead,
            decreases total - i,
        {
            let draw = rng::next_u64(&mut source);
            cells.push(Self::seeded_cell(draw, alive_threshold));
            i += 1;
        }
        Universe { width, height, cells }
    }

    /// Advance the universe by exactly one generation: the new buffer is
    /// the synchronous step of the old one, every neighbor count taken
    /// against the old generation before any cell changes.
    pub fn tick(&mut self)
        requires
            old(self).wf(),
        ensures
            final(self).wf(),
            final(self).width == old(self).width,
            final(self).height == old(self).height,
            final(self).cells@ == step(
                old(self).cells@,
                old(self).width as int,
                old(self).height as int,
            ),
    {
        let ghost s = self.cells@;
        let ghost w_i = self.width as int;
        let ghost h_i = self.height as int;
        let width = self.width;
        let height = self.height;
        let total = self.cells.len();
        let mut next: Vec<Cell> = Vec::new();
        let mut idx: usize = 0;
        while idx < total
            invariant
                self.wf(),
                self.cells@ == s,
                self.width == width,
                self.height == height,
                w_i == width as int,
                h_i == height as int,
                total == s.len(),
                idx <= total,
                next@.len() == idx,
                forall|k: int| 0 <= k < idx ==> next@[k] == step(s, w_i, h_i)[k],
            decreases total - idx,
        {
            proof {
                lemma_multiply_divide_lt(idx as int, w_i, h_i);
                lemma_mod_division_less_than_divisor(idx as int, w_i);
                lemma_fundamental_div_mod(idx as int, w_i);
            }
            let row = (idx / (width as usize)) as u32;
            let col = (idx % (width as usize)) as u32;
            let cell = self.cells[idx];
            let live_neighbors = self.live_neighbor_count(row, col);
            let new_cell = match cell {
                Cell::Alive => if live_neighbors == 2 || live_neighbors == 3 {
                    Cell::Alive
                } else {
                    Cell::Dead
                },
                Cell::Dead => if live_neighbors == 3 {
                    Cell::Alive
                } else {
                    Cell::Dead
                },
            };
            next.push(new_cell);
            idx += 1;
        }
        self.cells = next;
        proof {
            assert(self.cells@ =~= step(s, w_i, h_i));
        }
    }

    /// Toggle exactly the cell at column `x`, row `y`: alive becomes dead
    /// and dead becomes alive, and every other cell keeps its state.
    pub fn click(&mut self, x: u32, y: u32)
        requires
            old(self).wf(),
            x < old(self).width,
            y < old(self).height,
        ensures
            final(self).wf(),
            final(self).width == old(self).width,
            final(self).height == old(self).height,
            final(self).cells@ == old(self).cells@.update(
                y * old(self).width + x,
                toggle(old(self).cells@[y * old(self).width + x]),
            ),
            final(self).cells@[y * old(self).width + x] == toggle(
                old(self).cells@[y * old(self).width + x],
            ),
            forall|k: int|
                0 <= k < old(self).cells@.len() && k != y * old(self).width + x
                    ==> final(self).cells@[k] == old(self).cells@[k],
    {
        let idx = self.get_index(y, x);
        let flipped = match self.cells[idx] {
            Cell::Alive => Cell::Dead,
            Cell::Dead => Cell::Alive,
        };
        self.cells[idx] = flipped;
    }

    /// The cell at `row`, `column` of the current generation, for an
    /// external renderer or driver to read.
    pub fn get_cell(&self, row: u32, column: u32) -> (c: Cell)
        requires
            self.wf(),
            row < self.height,
            column < self.width,
        ensures
            c == at(self.cells@, self.width as int, row as int, column as int),
    {
        let idx = self.get_index(row, column);
        self.cells[idx]
    }

    /// The pixel origin of every live cell of the current generation, in
    /// row-major index order: what an external renderer draws, one filled
    /// `CELL_SIZE` by `CELL_SIZE` square per entry.
    pub fn live_cell_rects(&self) -> (rects: Vec<(u64, u64)>)
        requires
            self.wf(),
        ensures
            rects@ == live_rects(self.cells@, self.width as int),
    {
        let ghost s = self.cells@;
        let ghost w_i = self.width as int;
        let width = self.width;
        let total = self.cells.len();
        let mut rects: Vec<(u64, u64)> = Vec::new();
        let mut i: usize = 0;
        while i < total
            invariant
                self.wf(),
                self.cells@ == s,
                self.width == width,
                w_i == width as int,
                total == s.len(),
                i <= total,
                rects@ == live_rects(s.take(i as int), w_i),
            decreases total - i,
        {
            proof {
                lemma_multiply_divide_lt(i as int, w_i, self.height as int);
                lemma_mod_division_less_than_divisor(i as int, w_i);
                assert(s.take(i + 1).drop_last() =~= s.take(i as int));
                assert(s.take(i + 1).last() == s[i as int]);
            }
            let cell = self.cells[i];
            match cell {
                Cell::Alive => {
                    let col = i % (width as usize);
                    let row = i / (width as usize);
                    rects.push(((col as u64) * CELL_SIZE, (row as u64) * CELL_SIZE));
                },
                Cell::Dead => {},
            }
            i += 1;
        }
        proof {
            assert(s.take(total as int) =~= s);
        }
        rects
    }

    /// The fixed pixel size of one drawn cell.
    pub fn get_cell_size(&self) -> (s: u64)
        ensures
            s == CELL_SIZE,
    {
        CELL_SIZE
    }
}

} // verus!

