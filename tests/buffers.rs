use biosim::buffers::{Backend, BufferPair};
use biosim::engine::tick;
use biosim::hex_grid::{Fraction, Layout};
use biosim::kernel::{dispatch_kernel, run_invocation, set_cell_at, update_cell};
use biosim::simulation::{new_random, Config, Simulation, World};
use biosim::viewport::{read_window, Window};
use biosim::world::{Cell, WorldCoord};
use biosim::{WORLD_CELLS, WORLD_WIDTH};

fn scrambled_grid(seed: u64) -> Vec<Cell> {
    let mut state = seed;
    let mut cells = Vec::with_capacity(WORLD_CELLS);
    for _ in 0..WORLD_CELLS {
        state = state.wrapping_mul(6364136223846793005).wrapping_add(1442695040888963407);
        cells.push(if (state >> 33) & 1 == 1 { Cell::Alive } else { Cell::Dead });
    }
    cells
}

#[test]
fn new_pair_is_dead() {
    let pair = BufferPair::new(Backend::General);
    assert!(pair.input().iter().all(|c| *c == Cell::Dead));
    assert!(pair.output().iter().all(|c| *c == Cell::Dead));
    assert_eq!(pair.backend(), Backend::General);
}

#[test]
fn dispatch_then_swap_hands_output_to_input() {
    for backend in [Backend::General, Backend::Kernel] {
        let seed = scrambled_grid(21);
        let mut pair = BufferPair::new(backend);
        pair.copy_to_buffer(&seed);
        assert_eq!(pair.input(), &seed[..]);
        pair.dispatch();
        assert_eq!(pair.input(), &seed[..]);
        let written = pair.output().to_vec();
        assert_eq!(written, tick(&seed));
        pair.swap_buffers();
        assert_eq!(pair.input(), &written[..]);
        assert_eq!(pair.output(), &seed[..]);
        pair.dispatch();
        assert_eq!(pair.input(), &written[..]);
        assert_eq!(pair.output().to_vec(), tick(&written));
    }
}

#[test]
fn read_back_gives_the_generation_just_computed() {
    let mut seed = vec![Cell::Dead; WORLD_CELLS];
    seed[0] = Cell::Alive;
    let mut pair = BufferPair::new(Backend::Kernel);
    pair.copy_to_buffer(&seed);
    pair.dispatch();
    let corner = Window { low: WorldCoord { x: 0, y: 0 }, high: WorldCoord { x: 1, y: 1 } };
    assert_eq!(pair.read_back(corner), vec![Cell::Dead]);
    let scrambled = scrambled_grid(44);
    pair.copy_to_buffer(&scrambled);
    pair.dispatch();
    let w = Window { low: WorldCoord { x: 500, y: 0 }, high: WorldCoord { x: WORLD_WIDTH, y: 7 } };
    let next = tick(&scrambled);
    assert_eq!(pair.read_back(w), read_window(&next, w));
    assert_eq!(pair.read_back(w).len(), 12 * 7);
}

#[test]
fn old_output_contents_do_not_matter() {
    let seed = scrambled_grid(2);
    let mut a = BufferPair::new(Backend::Kernel);
    a.copy_to_buffer(&seed);
    let mut b = BufferPair::new(Backend::General);
    b.copy_to_buffer(&scrambled_grid(99));
    b.swap_buffers();
    b.copy_to_buffer(&seed);
    a.dispatch();
    b.dispatch();
    assert_eq!(a.output(), b.output());
}

#[test]
fn seed_after_swap_fills_the_new_input() {
    let mut pair = BufferPair::new(Backend::General);
    let first = scrambled_grid(8);
    pair.copy_to_buffer(&first);
    pair.swap_buffers();
    let second = scrambled_grid(9);
    pair.copy_to_buffer(&second);
    assert_eq!(pair.input(), &second[..]);
    assert_eq!(pair.output(), &first[..]);
}

#[test]
fn kernel_dispatch_equals_tick() {
    let input = scrambled_grid(31);
    let mut output = scrambled_grid(32);
    dispatch_kernel(&input, &mut output);
    assert_eq!(output, tick(&input));
}

#[test]
fn invocations_off_grid_do_nothing() {
    let input = scrambled_grid(4);
    let before = scrambled_grid(5);
    let mut output = before.clone();
    run_invocation(&input, &mut output, WORLD_WIDTH as u32, 0);
    run_invocation(&input, &mut output, 0, WORLD_WIDTH as u32);
    run_invocation(&input, &mut output, u32::MAX, u32::MAX);
    assert_eq!(output, before);
}

#[test]
fn single_invocation_updates_one_cell() {
    let mut input = vec![Cell::Dead; WORLD_CELLS];
    input[0] = Cell::Alive;
    input[1] = Cell::Alive;
    input[WORLD_WIDTH] = Cell::Alive;
    let mut output = vec![Cell::Dead; WORLD_CELLS];
    run_invocation(&input, &mut output, 1, 1);
    assert_eq!(output[WORLD_WIDTH + 1], Cell::Alive);
    assert_eq!(output.iter().filter(|c| **c == Cell::Alive).count(), 1);
    update_cell(&input, &mut output, WorldCoord { x: 0, y: 0 });
    assert_eq!(output[0], Cell::Alive);
    set_cell_at(&mut output, WorldCoord { x: 3, y: 2 }, Cell::Alive);
    assert_eq!(output[2 * WORLD_WIDTH + 3], Cell::Alive);
}

#[test]
fn set_cell_at_writes_into_any_long_enough_buffer() {
    let mut short = vec![Cell::Dead; WORLD_WIDTH + 2];
    set_cell_at(&mut short, WorldCoord { x: 1, y: 1 }, Cell::Alive);
    assert_eq!(short.len(), WORLD_WIDTH + 2);
    assert_eq!(short[WORLD_WIDTH + 1], Cell::Alive);
    assert_eq!(short.iter().filter(|c| **c == Cell::Alive).count(), 1);
    let mut row = vec![Cell::Dead; 4];
    set_cell_at(&mut row, WorldCoord { x: 3, y: 0 }, Cell::Alive);
    assert_eq!(row, vec![Cell::Dead, Cell::Dead, Cell::Dead, Cell::Alive]);
}

#[test]
fn simulation_steps_one_generation() {
    let seed = scrambled_grid(13);
    let config = Config { layout: Layout::Hex, viewport_radius: Some(4), backend: Backend::Kernel };
    let mut sim = Simulation::new(config, &seed);
    assert_eq!(sim.config(), config);
    assert_eq!(sim.cells(), &seed[..]);
    sim.step();
    let next = tick(&seed);
    assert_eq!(sim.cells(), &next[..]);
    sim.step();
    assert_eq!(sim.cells(), &tick(&next)[..]);
    let w = sim.visible_window(Fraction { num: 0, den: 1 }, Fraction { num: 0, den: 1 });
    assert_eq!(w, Window { low: WorldCoord { x: 252, y: 252 }, high: WorldCoord { x: 261, y: 261 } });
    assert_eq!(sim.read_back(w), read_window(&tick(&next), w));
}

#[test]
fn random_grid_is_full_and_mixed() {
    let cells = new_random();
    assert_eq!(cells.len(), WORLD_CELLS);
    assert!(cells.iter().any(|c| *c == Cell::Alive));
    assert!(cells.iter().any(|c| *c == Cell::Dead));
    let world = World::new_random();
    assert_eq!(world.cells.len(), WORLD_CELLS);
}

#[test]
fn world_tick_matches_engine() {
    let world = World { cells: scrambled_grid(17) };
    let next = world.tick();
    assert_eq!(next.cells, tick(&world.cells));
    assert_eq!(Cell::from_alive(true), Cell::Alive);
    assert_eq!(Cell::from_alive(false), Cell::Dead);
}

#[test]
fn update_cell_over_a_window_in_any_order_matches_tick() {
    let input = scrambled_grid(61);
    let before = scrambled_grid(62);
    let mut output = before.clone();
    let (x0, x1, y0, y1) = (505, WORLD_WIDTH, 0, 9);
    for y in (y0..y1).rev() {
        for x in (x0..x1).rev() {
            update_cell(&input, &mut output, WorldCoord { x, y });
        }
    }
    update_cell(&input, &mut output, WorldCoord { x: 506, y: 3 });
    let full = tick(&input);
    for y in 0..WORLD_WIDTH {
        for x in 0..WORLD_WIDTH {
            let i = y * WORLD_WIDTH + x;
            let inside = x0 <= x && x < x1 && y0 <= y && y < y1;
            assert_eq!(output[i], if inside { full[i] } else { before[i] }, "at ({}, {})", x, y);
        }
    }
}
