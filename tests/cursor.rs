use life_3d::cursor::Cursor;
use life_3d::game::{Cell, GameOfLife, ARENA_SIZE};

#[test]
fn cursor_starts_at_the_centre() {
    let cursor = Cursor::new();
    assert_eq!((cursor.x(), cursor.y(), cursor.z()), (ARENA_SIZE / 2, ARENA_SIZE / 2, ARENA_SIZE / 2));
}

#[test]
fn cursor_moves_one_axis_at_a_time() {
    let mut cursor = Cursor::new();
    cursor.move_x(1);
    cursor.move_y(-1);
    cursor.move_z(1);
    cursor.move_z(1);
    assert_eq!((cursor.x(), cursor.y(), cursor.z()), (65, 63, 66));
}

#[test]
fn cursor_stops_at_the_edges() {
    let mut cursor = Cursor::new();
    for _ in 0..200 {
        cursor.move_x(-1);
        cursor.move_y(1);
    }
    assert_eq!(cursor.x(), 0);
    assert_eq!(cursor.y(), ARENA_SIZE - 1);
    cursor.move_z(i32::MIN);
    assert_eq!(cursor.z(), 0);
    cursor.move_z(i32::MAX);
    assert_eq!(cursor.z(), ARENA_SIZE - 1);
}

#[test]
fn cursor_moves_by_roll() {
    let expected = [(63, 64, 64), (65, 64, 64), (64, 64, 65), (64, 64, 63), (64, 65, 64), (64, 63, 64), (64, 64, 64)];
    for (roll, want) in (1..=7u32).zip(expected.iter()) {
        let mut cursor = Cursor::new();
        cursor.move_by_roll(roll);
        assert_eq!((cursor.x(), cursor.y(), cursor.z()), *want);
    }
}

#[test]
fn random_walk_moves_one_step_and_flips() {
    let mut game = GameOfLife::new();
    let mut cursor = Cursor::new();
    let mut rng = rand::thread_rng();
    for _ in 0..20 {
        let before = (cursor.x() as i64, cursor.y() as i64, cursor.z() as i64);
        game.random_walk(&mut cursor, &mut rng);
        let after = (cursor.x() as i64, cursor.y() as i64, cursor.z() as i64);
        let distance = (after.0 - before.0).abs() + (after.1 - before.1).abs() + (after.2 - before.2).abs();
        assert_eq!(distance, 1);
    }
    let mut fresh = GameOfLife::new();
    let mut c = Cursor::new();
    fresh.random_walk(&mut c, &mut rng);
    assert_eq!(fresh.cell(c.x(), c.y(), c.z()), Cell::Alive);
    assert_eq!(fresh.cells().iter().filter(|c| c.is_alive()).count(), 1);
}
