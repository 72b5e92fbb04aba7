//! Laws of the simulation: properties that hold of every grid, proved once
//! and for all against the specification functions that the operations of
//! [`crate::Universe`] are contracted to.

use crate::at;
use crate::neighbor_count;
use crate::next_cell;
use crate::step;
use crate::step_n;
use crate::toggle;
use crate::Cell;
use vstd::arithmetic::div_mod::lemma_fundamental_div_mod;
use vstd::arithmetic::div_mod::lemma_fundamental_div_mod_converse;
use vstd::arithmetic::div_mod::lemma_mod_add_multiples_vanish;
use vstd::arithmetic::div_mod::lemma_mod_division_less_than_divisor;
use vstd::arithmetic::div_mod::lemma_mod_multiples_basic;
use vstd::arithmetic::div_mod::lemma_multiply_divide_lt;
use vstd::arithmetic::div_mod::lemma_small_mod;
use vstd::prelude::*;

verus! {

/// Advancing two generations in sequence is the two-fold composition of
/// the single-generation function: a step depends on the cell buffer and
/// the dimensions alone, so there is no hidden state for a second step to
/// see.
pub proof fn lemma_two_steps_compose(s: Seq<Cell>, w: int, h: int)
    ensures
        step_n(s, w, h, 2) == step(step(s, w, h), w, h),
{
    assert(step_n(s, w, h, 0) == s);
    assert(step_n(s, w, h, 1) == step(s, w, h));
    assert(step_n(s, w, h, 2) == step(step(s, w, h), w, h));
}

/// Toggling the same cell twice restores the buffer: the second toggle
/// undoes the first and no other cell is ever touched.
pub proof fn lemma_toggle_twice(s: Seq<Cell>, i: int)
    requires
        0 <= i < s.len(),
    ensures
        s.update(i, toggle(s[i])).update(
            i,
            toggle(s.update(i, toggle(s[i]))[i]),
        ) == s,
{
    assert(s.update(i, toggle(s[i])).update(i, toggle(s.update(i, toggle(s[i]))[i])) =~= s);
}

/// A live cell at the origin is counted across every wrapping direction:
/// it adds one to the neighbor count of the opposite corner, of the last
/// row in the same column, and of the last column in the same row.
pub proof fn lemma_origin_wraps_to_corners(s: Seq<Cell>, w: int, h: int)
    requires
        w >= 2,
        h >= 2,
        s.len() == w * h,
        s[0] == Cell::Alive,
    ensures
        neighbor_count(s, w, h, h - 1, w - 1) >= 1,
        neighbor_count(s, w, h, h - 1, 0) >= 1,
        neighbor_count(s, w, h, 0, w - 1) >= 1,
{
    lemma_mod_multiples_basic(1, h);
    lemma_mod_multiples_basic(1, w);
    lemma_small_mod(0, h as nat);
    lemma_small_mod(0, w as nat);
    assert(((h - 1) + 1) % h == 0);
    assert(((w - 1) + 1) % w == 0);
    assert(at(s, w, 0, 0) == s[0]);
    assert(crate::wrapped_neighbor_val(s, w, h, h - 1, w - 1, 1, 1) == 1);
    assert(crate::wrapped_neighbor_val(s, w, h, h - 1, 0, 1, 0) == 1);
    assert(crate::wrapped_neighbor_val(s, w, h, 0, w - 1, 0, 1) == 1);
}

/// One step around the torus in the increasing direction.
pub open spec fn wrap_inc(x: int, m: int) -> int {
    (x + 1) % m
}

/// One step around the torus in the decreasing direction, written as an
/// addition of `m - 1` so that every coordinate stays nonnegative.
pub open spec fn wrap_dec(x: int, m: int) -> int {
    (x + (m - 1)) % m
}

proof fn lemma_wrap_inc_val(x: int, m: int)
    requires
        m >= 1,
        0 <= x < m,
    ensures
        wrap_inc(x, m) == if x == m - 1 {
            0int
        } else {
            x + 1
        },
{
    if x == m - 1 {
        lemma_mod_multiples_basic(1, m);
    } else {
        lemma_small_mod((x + 1) as nat, m as nat);
    }
}

proof fn lemma_wrap_dec_val(x: int, m: int)
    requires
        m >= 1,
        0 <= x < m,
    ensures
        wrap_dec(x, m) == if x == 0 {
            m - 1
        } else {
            x - 1
        },
{
    if x == 0 {
        lemma_small_mod((m - 1) as nat, m as nat);
    } else {
        lemma_mod_add_multiples_vanish(x - 1, m);
        lemma_small_mod((x - 1) as nat, m as nat);
    }
}

/// The cell that the block configuration puts at `(i, j)`: alive exactly
/// on the four cells of the 2-by-2 block whose upper-left corner is
/// `(r, c)`, the partner row and column taken around the torus.
pub open spec fn block_cell(w: int, h: int, r: int, c: int, i: int, j: int) -> Cell {
    if (i == r || i == wrap_inc(r, h)) && (j == c || j == wrap_inc(c, w)) {
        Cell::Alive
    } else {
        Cell::Dead
    }
}

/// The buffer holds exactly a 2-by-2 block of live cells at `(r, c)`,
/// and every other cell is dead.
pub open spec fn is_block_at(s: Seq<Cell>, w: int, h: int, r: int, c: int) -> bool {
    &&& s.len() == w * h
    &&& forall|i: int, j: int|
        0 <= i < h && 0 <= j < w ==> #[trigger] at(s, w, i, j) == block_cell(w, h, r, c, i, j)
}

/// One cell of the block configuration is unchanged by the transition
/// rule: each of the four block cells has exactly the other three as live
/// neighbors, and every other cell sees at most two live cells.
#[verifier::rlimit(100)]
proof fn lemma_block_cell_step(s: Seq<Cell>, w: int, h: int, r: int, c: int, i: int, j: int)
    requires
        w >= 4,
        h >= 4,
        0 <= r < h,
        0 <= c < w,
        is_block_at(s, w, h, r, c),
        0 <= i < h,
        0 <= j < w,
    ensures
        next_cell(at(s, w, i, j), neighbor_count(s, w, h, i, j)) == at(s, w, i, j),
{
    let iu = wrap_dec(i, h);
    let id = wrap_inc(i, h);
    let jl = wrap_dec(j, w);
    let jr = wrap_inc(j, w);
    lemma_wrap_dec_val(i, h);
    lemma_wrap_inc_val(i, h);
    lemma_wrap_dec_val(j, w);
    lemma_wrap_inc_val(j, w);
    lemma_wrap_inc_val(r, h);
    lemma_wrap_inc_val(c, w);
    lemma_small_mod(i as nat, h as nat);
    lemma_small_mod(j as nat, w as nat);
    assert(at(s, w, i, j) == block_cell(w, h, r, c, i, j));
    assert(at(s, w, iu, jl) == block_cell(w, h, r, c, iu, jl));
    assert(at(s, w, iu, j) == block_cell(w, h, r, c, iu, j));
    assert(at(s, w, iu, jr) == block_cell(w, h, r, c, iu, jr));
    assert(at(s, w, i, jl) == block_cell(w, h, r, c, i, jl));
    assert(at(s, w, i, jr) == block_cell(w, h, r, c, i, jr));
    assert(at(s, w, id, jl) == block_cell(w, h, r, c, id, jl));
    assert(at(s, w, id, j) == block_cell(w, h, r, c, id, j));
    assert(at(s, w, id, jr) == block_cell(w, h, r, c, id, jr));
    assert(neighbor_count(s, w, h, i, j) == crate::cell_val(at(s, w, iu, jl))
        + crate::cell_val(at(s, w, iu, j)) + crate::cell_val(at(s, w, iu, jr))
        + crate::cell_val(at(s, w, i, jl)) + crate::cell_val(at(s, w, i, jr))
        + crate::cell_val(at(s, w, id, jl)) + crate::cell_val(at(s, w, id, j))
        + crate::cell_val(at(s, w, id, jr)));
}

/// A 2-by-2 block of live cells with every other cell dead is a still
/// life: one synchronous generation leaves the whole grid unchanged.
pub proof fn lemma_block_still_life(s: Seq<Cell>, w: int, h: int, r: int, c: int)
    requires
        w >= 4,
        h >= 4,
        0 <= r < h,
        0 <= c < w,
        is_block_at(s, w, h, r, c),
    ensures
        step(s, w, h) == s,
{
    assert forall|k: int| 0 <= k < s.len() implies step(s, w, h)[k] == s[k] by {
        lemma_fundamental_div_mod(k, w);
        lemma_multiply_divide_lt(k, w, h);
        lemma_mod_division_less_than_divisor(k, w);
        let i = k / w;
        let j = k % w;
        lemma_block_cell_step(s, w, h, r, c, i, j);
        assert(k == w * i + j);
        assert(w * i == i * w) by (nonlinear_arith);
        assert(at(s, w, i, j) == s[k]);
    }
    assert(step(s, w, h) =~= s);
}

/// The cell that the horizontal blinker configuration puts at `(i, j)`:
/// alive exactly on the three cells of row `r` whose columns are `c` and
/// its two torus neighbors.
pub open spec fn blinker_h_cell(w: int, h: int, r: int, c: int, i: int, j: int) -> Cell {
    if i == r && (j == wrap_dec(c, w) || j == c || j == wrap_inc(c, w)) {
        Cell::Alive
    } else {
        Cell::Dead
    }
}

/// The cell that the vertical blinker configuration puts at `(i, j)`:
/// alive exactly on the three cells of column `c` whose rows are `r` and
/// its two torus neighbors.
pub open spec fn blinker_v_cell(w: int, h: int, r: int, c: int, i: int, j: int) -> Cell {
    if j == c && (i == wrap_dec(r, h) || i == r || i == wrap_inc(r, h)) {
        Cell::Alive
    } else {
        Cell::Dead
    }
}

/// The buffer holds exactly a horizontal line of three live cells
/// centered at `(r, c)`, and every other cell is dead.
pub open spec fn is_blinker_h_at(s: Seq<Cell>, w: int, h: int, r: int, c: int) -> bool {
    &&& s.len() == w * h
    &&& forall|i: int, j: int|
        0 <= i < h && 0 <= j < w ==> #[trigger] at(s, w, i, j) == blinker_h_cell(w, h, r, c, i, j)
}

/// The buffer holds exactly a vertical line of three live cells centered
/// at `(r, c)`, and every other cell is dead.
pub open spec fn is_blinker_v_at(s: Seq<Cell>, w: int, h: int, r: int, c: int) -> bool {
    &&& s.len() == w * h
    &&& forall|i: int, j: int|
        0 <= i < h && 0 <= j < w ==> #[trigger] at(s, w, i, j) == blinker_v_cell(w, h, r, c, i, j)
}

/// One cell of the horizontal blinker under the transition rule: the two
/// cells straight above and below the center gain exactly three live
/// neighbors, the center keeps two, the two ends keep one, and every
/// other cell sees at most two.
#[verifier::rlimit(100)]
proof fn lemma_blinker_h_cell_step(s: Seq<Cell>, w: int, h: int, r: int, c: int, i: int, j: int)
    requires
        w >= 4,
        h >= 4,
        0 <= r < h,
        0 <= c < w,
        is_blinker_h_at(s, w, h, r, c),
        0 <= i < h,
        0 <= j < w,
    ensures
        next_cell(at(s, w, i, j), neighbor_count(s, w, h, i, j))
            == blinker_v_cell(w, h, r, c, i, j),
{
    let iu = wrap_dec(i, h);
    let id = wrap_inc(i, h);
    let jl = wrap_dec(j, w);
    let jr = wrap_inc(j, w);
    lemma_wrap_dec_val(i, h);
    lemma_wrap_inc_val(i, h);
    lemma_wrap_dec_val(j, w);
    lemma_wrap_inc_val(j, w);
    lemma_wrap_dec_val(r, h);
    lemma_wrap_inc_val(r, h);
    lemma_wrap_dec_val(c, w);
    lemma_wrap_inc_val(c, w);
    lemma_small_mod(i as nat, h as nat);
    lemma_small_mod(j as nat, w as nat);
    assert(at(s, w, i, j) == blinker_h_cell(w, h, r, c, i, j));
    assert(at(s, w, iu, jl) == blinker_h_cell(w, h, r, c, iu, jl));
    assert(at(s, w, iu, j) == blinker_h_cell(w, h, r, c, iu, j));
    assert(at(s, w, iu, jr) == blinker_h_cell(w, h, r, c, iu, jr));
    assert(at(s, w, i, jl) == blinker_h_cell(w, h, r, c, i, jl));
    assert(at(s, w, i, jr) == blinker_h_cell(w, h, r, c, i, jr));
    assert(at(s, w, id, jl) == blinker_h_cell(w, h, r, c, id, jl));
    assert(at(s, w, id, j) == blinker_h_cell(w, h, r, c, id, j));
    assert(at(s, w, id, jr) == blinker_h_cell(w, h, r, c, id, jr));
    assert(neighbor_count(s, w, h, i, j) == crate::cell_val(at(s, w, iu, jl))
        + crate::cell_val(at(s, w, iu, j)) + crate::cell_val(at(s, w, iu, jr))
        + crate::cell_val(at(s, w, i, jl)) + crate::cell_val(at(s, w, i, jr))
        + crate::cell_val(at(s, w, id, jl)) + crate::cell_val(at(s, w, id, j))
        + crate::cell_val(at(s, w, id, jr)));
}

/// One cell of the vertical blinker under the transition rule, the mirror
/// image of the horizontal case.
#[verifier::rlimit(100)]
proof fn lemma_blinker_v_cell_step(s: Seq<Cell>, w: int, h: int, r: int, c: int, i: int, j: int)
    requires
        w >= 4,
        h >= 4,
        0 <= r < h,
        0 <= c < w,
        is_blinker_v_at(s, w, h, r, c),
        0 <= i < h,
        0 <= j < w,
    ensures
        next_cell(at(s, w, i, j), neighbor_count(s, w, h, i, j))
            == blinker_h_cell(w, h, r, c, i, j),
{
    let iu = wrap_dec(i, h);
    let id = wrap_inc(i, h);
    let jl = wrap_dec(j, w);
    let jr = wrap_inc(j, w);
    lemma_wrap_dec_val(i, h);
    lemma_wrap_inc_val(i, h);
    lemma_wrap_dec_val(j, w);
    lemma_wrap_inc_val(j, w);
    lemma_wrap_dec_val(r, h);
    lemma_wrap_inc_val(r, h);
    lemma_wrap_dec_val(c, w);
    lemma_wrap_inc_val(c, w);
    lemma_small_mod(i as nat, h as nat);
    lemma_small_mod(j as nat, w as nat);
    assert(at(s, w, i, j) == blinker_v_cell(w, h, r, c, i, j));
    assert(at(s, w, iu, jl) == blinker_v_cell(w, h, r, c, iu, jl));
    assert(at(s, w, iu, j) == blinker_v_cell(w, h, r, c, iu, j));
    assert(at(s, w, iu, jr) == blinker_v_cell(w, h, r, c, iu, jr));
    assert(at(s, w, i, jl) == blinker_v_cell(w, h, r, c, i, jl));
    assert(at(s, w, i, jr) == blinker_v_cell(w, h, r, c, i, jr));
    assert(at(s, w, id, jl) == blinker_v_cell(w, h, r, c, id, jl));
    assert(at(s, w, id, j) == blinker_v_cell(w, h, r, c, id, j));
    assert(at(s, w, id, jr) == blinker_v_cell(w, h, r, c, id, jr));
    assert(neighbor_count(s, w, h, i, j) == crate::cell_val(at(s, w, iu, jl))
        + crate::cell_val(at(s, w, iu, j)) + crate::cell_val(at(s, w, iu, jr))
        + crate::cell_val(at(s, w, i, jl)) + crate::cell_val(at(s, w, i, jr))
        + crate::cell_val(at(s, w, id, jl)) + crate::cell_val(at(s, w, id, j))
        + crate::cell_val(at(s, w, id, jr)));
}

/// One generation turns the horizontal blinker into the vertical blinker
/// with the same center.
pub proof fn lemma_blinker_h_steps_to_v(s: Seq<Cell>, w: int, h: int, r: int, c: int)
    requires
        w >= 4,
        h >= 4,
        0 <= r < h,
        0 <= c < w,
        is_blinker_h_at(s, w, h, r, c),
    ensures
        is_blinker_v_at(step(s, w, h), w, h, r, c),
{
    let t = step(s, w, h);
    assert forall|i: int, j: int| 0 <= i < h && 0 <= j < w implies #[trigger] at(t, w, i, j)
        == blinker_v_cell(w, h, r, c, i, j) by {
        let k = i * w + j;
        assert(0 <= i * w + j < w * h) by (nonlinear_arith)
            requires
                0 <= i < h,
                0 <= j < w,
        ;
        lemma_fundamental_div_mod_converse(k, w, i, j);
        lemma_blinker_h_cell_step(s, w, h, r, c, i, j);
    }
}

/// One generation turns the vertical blinker back into the horizontal
/// blinker with the same center.
pub proof fn lemma_blinker_v_steps_to_h(s: Seq<Cell>, w: int, h: int, r: int, c: int)
    requires
        w >= 4,
        h >= 4,
        0 <= r < h,
        0 <= c < w,
        is_blinker_v_at(s, w, h, r, c),
    ensures
        is_blinker_h_at(step(s, w, h), w, h, r, c),
{
    let t = step(s, w, h);
    assert forall|i: int, j: int| 0 <= i < h && 0 <= j < w implies #[trigger] at(t, w, i, j)
        == blinker_h_cell(w, h, r, c, i, j) by {
        let k = i * w + j;
        assert(0 <= i * w + j < w * h) by (nonlinear_arith)
            requires
                0 <= i < h,
                0 <= j < w,
        ;
        lemma_fundamental_div_mod_converse(k, w, i, j);
        lemma_blinker_v_cell_step(s, w, h, r, c, i, j);
    }
}

/// A horizontal line of three live cells with every other cell dead is a
/// period-two oscillator: one generation changes the grid, two restore it
/// exactly.
pub proof fn lemma_blinker_period_two(s: Seq<Cell>, w: int, h: int, r: int, c: int)
    requires
        w >= 4,
        h >= 4,
        0 <= r < h,
        0 <= c < w,
        is_blinker_h_at(s, w, h, r, c),
    ensures
        step(s, w, h) != s,
        step_n(s, w, h, 2) == s,
{
    let t = step(s, w, h);
    lemma_blinker_h_steps_to_v(s, w, h, r, c);
    lemma_blinker_v_steps_to_h(t, w, h, r, c);
    lemma_wrap_dec_val(r, h);
    let ru = wrap_dec(r, h);
    assert(at(t, w, ru, c) == blinker_v_cell(w, h, r, c, ru, c));
    assert(at(s, w, ru, c) == blinker_h_cell(w, h, r, c, ru, c));
    assert(0 <= ru * w + c < w * h) by (nonlinear_arith)
        requires
            0 <= ru < h,
            0 <= c < w,
    ;
    assert(t[ru * w + c] != s[ru * w + c]);
    let u = step(t, w, h);
    assert forall|k: int| 0 <= k < s.len() implies u[k] == s[k] by {
        lemma_fundamental_div_mod(k, w);
        lemma_multiply_divide_lt(k, w, h);
        lemma_mod_division_less_than_divisor(k, w);
        let i = k / w;
        let j = k % w;
        assert(k == w * i + j);
        assert(w * i == i * w) by (nonlinear_arith);
        assert(at(u, w, i, j) == blinker_h_cell(w, h, r, c, i, j));
        assert(at(s, w, i, j) == blinker_h_cell(w, h, r, c, i, j));
    }
    assert(u =~= s);
    lemma_two_steps_compose(s, w, h);
}

/// A buffer that one generation leaves unchanged is unchanged by any
/// number of generations.
pub proof fn lemma_fixed_point_forever(s: Seq<Cell>, w: int, h: int, n: nat)
    requires
        step(s, w, h) == s,
    ensures
        step_n(s, w, h, n) == s,
    decreases n,
{
    if n > 0 {
        lemma_fixed_point_forever(s, w, h, (n - 1) as nat);
    }
}

/// A 2-by-2 block of live cells with every other cell dead remains
/// unchanged after any number of generations, on every grid of at least
/// four rows and four columns.
pub proof fn lemma_block_still_forever(s: Seq<Cell>, w: int, h: int, r: int, c: int, n: nat)
    requires
        w >= 4,
        h >= 4,
        0 <= r < h,
        0 <= c < w,
        is_block_at(s, w, h, r, c),
    ensures
        step_n(s, w, h, n) == s,
{
    lemma_block_still_life(s, w, h, r, c);
    lemma_fixed_point_forever(s, w, h, n);
}

} // verus!
