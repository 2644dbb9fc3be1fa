use life_3d::cursor::Cursor;
use life_3d::game::{Cell, GameOfLife, ARENA_SIZE};

#[test]
fn neighbour_count_test() {
    let mut game = Box::new(GameOfLife::new());

    game.set_cell(3, 4, 3, Cell::Alive);
    game.set_cell(3, 4, 4, Cell::Alive);
    game.set_cell(2, 2, 3, Cell::Alive);

    assert_eq!(game.living_neighbours(3, 3, 3), 3);
}

#[test]
fn new_grid_is_all_dead() {
    let game = GameOfLife::new();
    assert_eq!(game.cells().len(), ARENA_SIZE * ARENA_SIZE * ARENA_SIZE);
    assert!(game.cells().iter().all(|c| c.is_dead()));
}

#[test]
fn cell_predicates() {
    assert!(Cell::Alive.is_alive());
    assert!(!Cell::Alive.is_dead());
    assert!(Cell::Dead.is_dead());
    assert!(!Cell::Dead.is_alive());
}

#[test]
fn set_cell_then_cell_reads_back() {
    let mut game = GameOfLife::new();
    game.set_cell(5, 6, 7, Cell::Alive);
    assert_eq!(game.cell(5, 6, 7), Cell::Alive);
    assert_eq!(game.cell(7, 6, 5), Cell::Dead);
    // Layers by y, rows by x, columns by z.
    let index = (6 * ARENA_SIZE + 5) * ARENA_SIZE + 7;
    assert_eq!(game.cells()[index], Cell::Alive);
}

#[test]
fn cells_mut_writes_through() {
    let mut game = GameOfLife::new();
    game.cells_mut()[(2 * ARENA_SIZE + 1) * ARENA_SIZE + 3] = Cell::Alive;
    assert_eq!(game.cell(1, 2, 3), Cell::Alive);
}

#[test]
fn clamp_coords_in_range_is_identity() {
    assert_eq!(GameOfLife::clamp_coords(0), 0);
    assert_eq!(GameOfLife::clamp_coords(64), 64);
    assert_eq!(GameOfLife::clamp_coords(ARENA_SIZE as i32 - 1), ARENA_SIZE - 1);
}

#[test]
fn clamp_coords_reflects_past_the_edges() {
    // One below the low edge lands on (N - 1) + (-1); one above the high edge
    // lands on N - (N - 1).
    assert_eq!(GameOfLife::clamp_coords(-1), ARENA_SIZE - 2);
    assert_eq!(GameOfLife::clamp_coords(ARENA_SIZE as i32), 1);
}

#[test]
fn neighbours_at_the_corner_use_reflection() {
    let mut game = GameOfLife::new();
    // Neighbours of (0, 0, 0) along x are 1 and the reflected N - 2.
    game.set_cell(ARENA_SIZE - 2, 0, 0, Cell::Alive);
    game.set_cell(1, 0, 0, Cell::Alive);
    // The far corner is not a neighbour under reflection.
    game.set_cell(ARENA_SIZE - 1, 0, 0, Cell::Alive);
    assert_eq!(game.living_neighbours(0, 0, 0), 2);
}

#[test]
fn neighbour_count_ignores_the_centre_and_reaches_twenty_six() {
    let mut game = GameOfLife::new();
    for y in 9..12 {
        for x in 9..12 {
            for z in 9..12 {
                game.set_cell(x, y, z, Cell::Alive);
            }
        }
    }
    assert_eq!(game.living_neighbours(10, 10, 10), 26);
    assert_eq!(game.living_neighbours(9, 9, 9), 7);
    assert_eq!(game.living_neighbours(20, 20, 20), 0);
}

#[test]
fn rule_table() {
    for n in 0..=26u32 {
        let survives = n == 3 || n == 5;
        let expected_alive = if survives { Cell::Alive } else { Cell::Dead };
        assert_eq!(GameOfLife::next_cell(Cell::Alive, n), expected_alive);
        let expected_dead = if n == 5 { Cell::Alive } else { Cell::Dead };
        assert_eq!(GameOfLife::next_cell(Cell::Dead, n), expected_dead);
    }
    assert_eq!(GameOfLife::next_cell(Cell::Alive, 4), Cell::Dead);
}

#[test]
fn stepping_an_all_dead_grid_stays_dead() {
    let mut game = GameOfLife::new();
    game.update_game();
    assert!(game.cells().iter().all(|c| c.is_dead()));
}

#[test]
fn step_births_survivals_and_deaths() {
    let mut game = GameOfLife::new();
    // Five live neighbours around (20, 20, 20): it is born.
    game.set_cell(19, 20, 20, Cell::Alive);
    game.set_cell(21, 20, 20, Cell::Alive);
    game.set_cell(20, 19, 20, Cell::Alive);
    game.set_cell(20, 21, 20, Cell::Alive);
    game.set_cell(20, 20, 19, Cell::Alive);
    // A lone cell far away dies.
    game.set_cell(60, 60, 60, Cell::Alive);
    game.update_game();
    assert_eq!(game.cell(20, 20, 20), Cell::Alive);
    assert_eq!(game.cell(60, 60, 60), Cell::Dead);
    // (19, 20, 20) had 3 live neighbours: (20,19,20), (20,21,20), (20,20,19).
    assert_eq!(game.cell(19, 20, 20), Cell::Alive);
    // (20, 20, 19) had 4: it dies.
    assert_eq!(game.cell(20, 20, 19), Cell::Dead);
}

#[test]
fn stepping_is_deterministic() {
    let mut a = GameOfLife::new();
    let mut b = GameOfLife::new();
    for &(x, y, z) in &[(3, 4, 3), (3, 4, 4), (2, 2, 3), (3, 3, 3), (4, 3, 3), (2, 3, 4)] {
        a.set_cell(x, y, z, Cell::Alive);
        b.set_cell(x, y, z, Cell::Alive);
    }
    a.update_game();
    b.update_game();
    assert!(a.cells() == b.cells());
}

#[test]
fn flip_at_cursor_twice_restores_the_cell() {
    let mut game = GameOfLife::new();
    let cursor = Cursor::new();
    let (x, y, z) = (cursor.x(), cursor.y(), cursor.z());
    assert_eq!(game.cell(x, y, z), Cell::Dead);
    game.flip_at_cursor(&cursor);
    assert_eq!(game.cell(x, y, z), Cell::Alive);
    game.flip_at_cursor(&cursor);
    assert_eq!(game.cell(x, y, z), Cell::Dead);
    assert!(game.cells().iter().all(|c| c.is_dead()));
}

#[test]
fn instances_leave_out_the_cursor_cell() {
    let mut game = GameOfLife::new();
    let cursor = Cursor::new();
    let (cx, cy, cz) = (cursor.x(), cursor.y(), cursor.z());
    game.set_cell(cx, cy, cz, Cell::Alive);
    game.set_cell(1, 2, 3, Cell::Alive);
    game.set_cell(3, 2, 1, Cell::Alive);
    game.set_cell(0, 0, 0, Cell::Alive);
    // Storage order: layer y, then row x, then column z.
    assert_eq!(game.instances(&cursor), vec![(0, 0, 0), (1, 2, 3), (3, 2, 1)]);
}

#[test]
fn instances_of_an_empty_grid_are_empty() {
    let game = GameOfLife::new();
    assert!(game.instances(&Cursor::new()).is_empty());
}
