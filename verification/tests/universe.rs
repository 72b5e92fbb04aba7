use toroidal_life::Cell;
use toroidal_life::Universe;
use toroidal_life::CELL_SIZE;

fn dead_universe(width: u32, height: u32) -> Universe {
    Universe::new(width, height, 0, 42)
}

#[test]
fn construction_len_is_width_times_height() {
    let u = dead_universe(7, 5);
    assert_eq!(u.width, 7);
    assert_eq!(u.height, 5);
    assert_eq!(u.cells.len(), 35);
    let v = Universe::new(3, 9, u64::MAX, 1);
    assert_eq!(v.cells.len(), 27);
    let w = dead_universe(1, 1);
    assert_eq!(w.cells.len(), 1);
}

#[test]
fn zero_threshold_gives_all_dead() {
    let u = dead_universe(6, 4);
    for c in &u.cells {
        assert_eq!(*c, Cell::Dead);
    }
}

#[test]
fn get_index_is_row_major() {
    let u = dead_universe(7, 5);
    assert_eq!(u.get_index(0, 0), 0);
    assert_eq!(u.get_index(0, 6), 6);
    assert_eq!(u.get_index(1, 0), 7);
    assert_eq!(u.get_index(4, 6), 34);
}

#[test]
fn click_toggles_exactly_one_cell() {
    let mut u = dead_universe(5, 4);
    u.click(3, 2);
    for row in 0..4 {
        for col in 0..5 {
            let expected = if (col, row) == (3, 2) { Cell::Alive } else { Cell::Dead };
            assert_eq!(u.get_cell(row, col), expected);
        }
    }
}

#[test]
fn click_twice_restores_the_grid() {
    let mut u = dead_universe(5, 4);
    u.click(1, 3);
    u.click(4, 0);
    let before = u.cells.clone();
    u.click(2, 2);
    assert_ne!(u.cells, before);
    u.click(2, 2);
    assert_eq!(u.cells, before);
}

#[test]
fn neighbor_count_wraps_around_all_corners() {
    let mut u = dead_universe(6, 4);
    u.click(0, 0);
    // The live cell at row 0, column 0 is seen across both wrapping axes.
    assert_eq!(u.live_neighbor_count(3, 5), 1);
    assert_eq!(u.live_neighbor_count(3, 0), 1);
    assert_eq!(u.live_neighbor_count(0, 5), 1);
    // It is not its own neighbor.
    assert_eq!(u.live_neighbor_count(0, 0), 0);
}

#[test]
fn tiny_grid_counts_one_cell_once_per_offset() {
    // On a two-by-two torus the offsets 1 and width - 1 coincide, so a
    // live cell is reached along several distinct offsets; it is still
    // never a neighbor of itself.
    let mut u = dead_universe(2, 2);
    u.click(0, 0);
    assert_eq!(u.live_neighbor_count(0, 0), 0);
    assert_eq!(u.live_neighbor_count(0, 1), 2);
    assert_eq!(u.live_neighbor_count(1, 0), 2);
    assert_eq!(u.live_neighbor_count(1, 1), 4);
}

#[test]
fn neighbor_count_sees_all_eight_neighbors() {
    let mut u = dead_universe(5, 5);
    for (x, y) in [(1, 1), (2, 1), (3, 1), (1, 2), (3, 2), (1, 3), (2, 3), (3, 3)] {
        u.click(x, y);
    }
    assert_eq!(u.live_neighbor_count(2, 2), 8);
}

#[test]
fn live_cell_rects_places_squares_row_major() {
    let mut u = dead_universe(4, 3);
    u.click(2, 0);
    u.click(0, 1);
    u.click(3, 2);
    let rects = u.live_cell_rects();
    assert_eq!(rects, vec![(20, 0), (0, 10), (30, 20)]);
}

#[test]
fn seeded_cell_compares_draw_against_threshold() {
    assert_eq!(Universe::seeded_cell(5, 6), Cell::Alive);
    assert_eq!(Universe::seeded_cell(6, 6), Cell::Dead);
    assert_eq!(Universe::seeded_cell(0, 0), Cell::Dead);
    assert_eq!(Universe::seeded_cell(u64::MAX, u64::MAX), Cell::Dead);
    assert_eq!(Universe::seeded_cell(0, 1), Cell::Alive);
}

#[test]
fn cell_size_is_the_display_constant() {
    let u = dead_universe(2, 2);
    assert_eq!(u.get_cell_size(), CELL_SIZE);
    assert_eq!(u.get_cell_size(), 10);
}
