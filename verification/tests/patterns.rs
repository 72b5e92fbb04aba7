use toroidal_life::Cell;
use toroidal_life::Universe;

fn universe_with(width: u32, height: u32, alive: &[(u32, u32)]) -> Universe {
    let mut u = Universe::new(width, height, 0, 7);
    for &(row, col) in alive {
        u.click(col, row);
    }
    u
}

fn alive_cells(u: &Universe) -> Vec<(u32, u32)> {
    let mut out = Vec::new();
    for row in 0..u.height {
        for col in 0..u.width {
            if u.get_cell(row, col) == Cell::Alive {
                out.push((row, col));
            }
        }
    }
    out
}

#[test]
fn tick_is_a_pure_function_of_the_buffer() {
    let pattern = [(0, 1), (1, 2), (2, 0), (2, 1), (2, 2), (4, 4)];
    let mut a = universe_with(5, 5, &pattern);
    let mut b = universe_with(5, 5, &pattern);
    a.tick();
    b.tick();
    assert_eq!(a.cells, b.cells);
    a.tick();
    b.tick();
    assert_eq!(a.cells, b.cells);
}

#[test]
fn glider_advances_one_generation_exactly() {
    let mut u = universe_with(5, 5, &[(0, 1), (1, 2), (2, 0), (2, 1), (2, 2)]);
    u.tick();
    assert_eq!(alive_cells(&u), vec![(1, 0), (1, 2), (2, 1), (2, 2), (3, 1)]);
}

#[test]
fn block_is_a_still_life() {
    let mut u = universe_with(4, 4, &[(1, 1), (1, 2), (2, 1), (2, 2)]);
    let start = u.cells.clone();
    for _ in 0..10 {
        u.tick();
        assert_eq!(u.cells, start);
    }
}

#[test]
fn block_is_still_at_the_grid_corner() {
    let mut u = universe_with(6, 5, &[(0, 0), (0, 1), (1, 0), (1, 1)]);
    let start = u.cells.clone();
    for _ in 0..5 {
        u.tick();
        assert_eq!(u.cells, start);
    }
}

#[test]
fn block_is_still_when_it_wraps_both_edges() {
    let mut u = universe_with(4, 4, &[(3, 3), (3, 0), (0, 3), (0, 0)]);
    let start = u.cells.clone();
    for _ in 0..5 {
        u.tick();
        assert_eq!(u.cells, start);
    }
}

#[test]
fn blinker_oscillates_with_period_two() {
    let mut u = universe_with(5, 5, &[(2, 1), (2, 2), (2, 3)]);
    let horizontal = u.cells.clone();
    u.tick();
    assert_ne!(u.cells, horizontal);
    assert_eq!(alive_cells(&u), vec![(1, 2), (2, 2), (3, 2)]);
    u.tick();
    assert_eq!(u.cells, horizontal);
}

#[test]
fn lonely_cells_die_and_empty_stays_empty() {
    let mut u = universe_with(4, 4, &[(2, 2)]);
    u.tick();
    assert_eq!(alive_cells(&u), vec![]);
    u.tick();
    assert_eq!(alive_cells(&u), vec![]);
}

#[test]
fn overcrowded_cell_dies() {
    // The center of a plus of five live cells has four live neighbors.
    let mut u = universe_with(5, 5, &[(1, 2), (2, 1), (2, 2), (2, 3), (3, 2)]);
    u.tick();
    let next = alive_cells(&u);
    assert!(!next.contains(&(2, 2)));
    // Each arm of the plus survives with exactly two or three neighbors.
    assert!(next.contains(&(1, 2)));
    assert!(next.contains(&(2, 1)));
    assert!(next.contains(&(2, 3)));
    assert!(next.contains(&(3, 2)));
}
