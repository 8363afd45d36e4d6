use biosim::util::DOption;
use biosim::world::{coordinate_of, get_index, next_state, Cell, WorldCoord, WorldCursor, WorldOffset};
use biosim::{WORLD_CELLS, WORLD_WIDTH};

fn dead_grid() -> Vec<Cell> {
    vec![Cell::Dead; WORLD_CELLS]
}

fn set(cells: &mut Vec<Cell>, x: usize, y: usize) {
    cells[y * WORLD_WIDTH + x] = Cell::Alive;
}

#[test]
fn next_state_matches_life_table() {
    for n in 0..=8 {
        let survives = if n == 2 || n == 3 { Cell::Alive } else { Cell::Dead };
        let born = if n == 3 { Cell::Alive } else { Cell::Dead };
        assert_eq!(next_state(Cell::Alive, n), survives, "alive with {}", n);
        assert_eq!(next_state(Cell::Dead, n), born, "dead with {}", n);
    }
}

#[test]
fn cell_default_is_dead() {
    assert_eq!(Cell::default(), Cell::Dead);
}

#[test]
fn index_is_row_major() {
    assert_eq!(get_index(WorldCoord { x: 0, y: 0 }), 0);
    assert_eq!(get_index(WorldCoord { x: 3, y: 0 }), 3);
    assert_eq!(get_index(WorldCoord { x: 0, y: 1 }), WORLD_WIDTH);
    assert_eq!(get_index(WorldCoord { x: 7, y: 2 }), 2 * WORLD_WIDTH + 7);
    assert_eq!(get_index(WorldCoord { x: WORLD_WIDTH - 1, y: WORLD_WIDTH - 1 }), WORLD_CELLS - 1);
}

#[test]
fn coordinate_round_trips_through_index() {
    for y in 0..WORLD_WIDTH {
        for x in 0..WORLD_WIDTH {
            let c = coordinate_of(get_index(WorldCoord { x, y }));
            assert_eq!((c.x, c.y), (x, y));
        }
    }
    let c = coordinate_of(WORLD_WIDTH + 5);
    assert_eq!((c.x, c.y), (5, 1));
}

#[test]
fn checked_add_signals_leaving_the_grid() {
    let origin = WorldCoord { x: 0, y: 0 };
    let DOption(ok, _) = origin.checked_add(WorldOffset { x: -1, y: 0 });
    assert!(!ok);
    let DOption(ok, _) = origin.checked_add(WorldOffset { x: 0, y: -1 });
    assert!(!ok);
    let far = WorldCoord { x: WORLD_WIDTH - 1, y: 4 };
    let DOption(ok, _) = far.checked_add(WorldOffset { x: 1, y: 0 });
    assert!(!ok);
    let DOption(ok, c) = far.checked_add(WorldOffset { x: -2, y: 3 });
    assert!(ok);
    assert_eq!(c, WorldCoord { x: WORLD_WIDTH - 3, y: 7 });
    let DOption(ok, _) = origin.checked_add(WorldOffset { x: i32::MAX, y: 0 });
    assert!(!ok);
    let DOption(ok, payload) = WorldCoord { x: 9, y: 9 }.checked_add(WorldOffset { x: 600, y: 1 });
    assert!(!ok);
    assert_eq!(payload, WorldCoord { x: 0, y: 0 });
}

#[test]
fn add_clamped_saturates_at_edges() {
    let c = WorldCoord { x: 10, y: 500 };
    assert_eq!(c.add_clamped(WorldOffset { x: -256, y: 256 }), WorldCoord { x: 0, y: WORLD_WIDTH - 1 });
    assert_eq!(c.add_clamped(WorldOffset { x: 5, y: -5 }), WorldCoord { x: 15, y: 495 });
    assert_eq!(
        c.add_clamped(WorldOffset { x: i32::MIN, y: i32::MAX }),
        WorldCoord { x: 0, y: WORLD_WIDTH - 1 }
    );
}

#[test]
fn offset_zero_is_zero() {
    assert_eq!(WorldOffset::zero(), WorldOffset { x: 0, y: 0 });
}

#[test]
fn doption_some_none_and_default() {
    let s = DOption::some(7u32);
    assert!(s.0);
    assert_eq!(s.unwrap_or_default(3), 7);
    let n: DOption<u32> = DOption::none();
    assert!(!n.0);
    assert_eq!(n.1, 0);
    assert_eq!(n.unwrap_or_default(3), 3);
}

#[test]
fn cursor_corner_with_dead_neighbors_counts_zero() {
    let mut cells = dead_grid();
    set(&mut cells, 0, 0);
    set(&mut cells, 2, 0);
    set(&mut cells, 0, 2);
    let cursor = WorldCursor::new(&cells, WorldCoord { x: 0, y: 0 });
    assert_eq!(cursor.count_living_neighbors(), 0);
    assert_eq!(cursor.get_cell(), Cell::Alive);
    assert_eq!(cursor.get_new_state(), Cell::Dead);
}

#[test]
fn cursor_reads_offsets_and_off_grid_as_dead() {
    let mut cells = dead_grid();
    set(&mut cells, 1, 1);
    let cursor = WorldCursor::new(&cells, WorldCoord { x: 0, y: 0 });
    assert_eq!(cursor.get_cell_at_offset(WorldOffset { x: 1, y: 1 }), Cell::Alive);
    assert_eq!(cursor.get_cell_at_offset(WorldOffset { x: -1, y: -1 }), Cell::Dead);
    assert_eq!(cursor.get_cell_at_coord(WorldCoord { x: 1, y: 1 }), Cell::Alive);
    assert_eq!(cursor.count_living_neighbors(), 1);
}

#[test]
fn cursor_counts_full_neighbourhood() {
    let mut cells = dead_grid();
    for y in 9..12 {
        for x in 19..22 {
            set(&mut cells, x, y);
        }
    }
    let centre = WorldCursor::new(&cells, WorldCoord { x: 20, y: 10 });
    assert_eq!(centre.count_living_neighbors(), 8);
    assert_eq!(centre.get_new_state(), Cell::Dead);
    let side = WorldCursor::new(&cells, WorldCoord { x: 19, y: 10 });
    assert_eq!(side.count_living_neighbors(), 5);
    let outside = WorldCursor::new(&cells, WorldCoord { x: 22, y: 10 });
    assert_eq!(outside.count_living_neighbors(), 3);
    assert_eq!(outside.get_new_state(), Cell::Alive);
}

#[test]
fn cursor_at_every_corner_and_edge_stays_in_bounds() {
    let cells = vec![Cell::Alive; WORLD_CELLS];
    let last = WORLD_WIDTH - 1;
    for (x, y, expected) in [(0, 0, 3), (last, 0, 3), (0, last, 3), (last, last, 3), (5, 0, 5), (0, 5, 5), (last, 5, 5), (5, last, 5)] {
        let cursor = WorldCursor::new(&cells, WorldCoord { x, y });
        assert_eq!(cursor.count_living_neighbors(), expected, "at ({}, {})", x, y);
    }
}
