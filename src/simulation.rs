//! Random seeding and the simulation driver, which owns the buffer pair.
use vstd::prelude::*;

use crate::buffers::{dispatched, swapped, Backend, BufferPair};
use crate::engine::{tick, tick_spec};
use crate::hex_grid::{world_uv_fits, Fraction, Layout};
use crate::viewport::{
    camera_cell, camera_window, read_window, window_around, window_cells, Window,
};
use crate::world::Cell;
use crate::WORLD_CELLS;

verus! {

/// Relies on `rand::random` (rand 0.8), which draws from the thread-local
/// generator, seeded from the operating system. Nothing is promised of the
/// value; the generator panics only when the operating system gives no seed.
pub assume_specification<T>[ rand::random::<T> ]() -> (r: T)
    where
        rand::distributions::Standard: rand::distributions::Distribution<T>,
;

impl Cell {
    /// `Alive` when `alive` holds, else `Dead`.
    pub fn from_alive(alive: bool) -> (r: Cell)
        ensures
            r == (if alive {
                Cell::Alive
            } else {
                Cell::Dead
            }),
    {
        if alive {
            Cell::Alive
        } else {
            Cell::Dead
        }
    }
}

/// A full grid, each cell alive or dead at random.
pub fn new_random() -> (r: Vec<Cell>)
    ensures
        r@.len() == WORLD_CELLS,
{
    let mut cells: Vec<Cell> = Vec::with_capacity(WORLD_CELLS);
    let mut i: usize = 0;
    while i < WORLD_CELLS
        invariant
            i <= WORLD_CELLS,
            cells@.len() == i,
        decreases WORLD_CELLS - i,
    {
        let alive: bool = rand::random::<bool>();
        cells.push(Cell::from_alive(alive));
        i = i + 1;
    }
    cells
}

/// One generation of cells, owned.
pub struct World {
    pub cells: Vec<Cell>,
}

impl World {
    pub open spec fn wf(&self) -> bool {
        self.cells@.len() == WORLD_CELLS
    }

    /// A world of random cells.
    pub fn new_random() -> (r: World)
        ensures
            r.wf(),
    {
        World { cells: new_random() }
    }

    /// The next generation; `self` is only read.
    pub fn tick(&self) -> (r: World)
        requires
            self.wf(),
        ensures
            r.wf(),
            r.cells@ == tick_spec(self.cells@),
    {
        World { cells: tick(&self.cells) }
    }
}

/// How a simulation runs.
#[derive(Clone, Copy, Debug, PartialEq, Eq, Structural)]
pub struct Config {
    pub layout: Layout,
    /// Cells on each side of the camera's cell that are read back; `None` for
    /// the whole grid.
    pub viewport_radius: Option<u32>,
    pub backend: Backend,
}

/// The simulation driver: it owns both grids and advances them one
/// generation at a time.
pub struct Simulation {
    buffers: BufferPair,
    config: Config,
}

impl View for Simulation {
    /// The current generation.
    type V = Seq<Cell>;

    closed spec fn view(&self) -> Seq<Cell> {
        self.buffers@.0
    }
}

impl Simulation {
    pub closed spec fn wf(&self) -> bool {
        self.buffers.wf() && self.buffers.backend_spec() == self.config.backend
    }

    pub closed spec fn config_spec(&self) -> Config {
        self.config
    }

    /// A simulation whose first generation is `cells`.
    pub fn new(config: Config, cells: &[Cell]) -> (r: Simulation)
        requires
            cells@.len() == WORLD_CELLS,
        ensures
            r.wf(),
            r@ == cells@,
            r.config_spec() == config,
    {
        let mut buffers = BufferPair::new(config.backend);
        buffers.copy_to_buffer(cells);
        Simulation { buffers, config }
    }

    pub fn config(&self) -> (r: Config)
        ensures
            r == self.config_spec(),
    {
        self.config
    }

    /// Advances one generation: a step into the output grid, then a swap.
    pub fn step(&mut self)
        requires
            old(self).wf(),
        ensures
            final(self).wf(),
            final(self)@ == tick_spec(old(self)@),
            final(self).config_spec() == old(self).config_spec(),
    {
        self.buffers.dispatch();
        self.buffers.swap_buffers();
        assert(self.buffers@ == swapped(dispatched(old(self).buffers@)));
    }

    /// The current generation.
    pub fn cells(&self) -> (r: &[Cell])
        ensures
            r@ == self@,
    {
        self.buffers.input()
    }

    /// The window around the camera at world position `(x, y)`.
    pub fn visible_window(&self, x: Fraction, y: Fraction) -> (r: Window)
        requires
            x.wf(),
            y.wf(),
            world_uv_fits(self.config_spec().layout, x, y),
        ensures
            r == window_around(
                camera_cell(self.config_spec().layout, x, y),
                self.config_spec().viewport_radius,
            ),
            r.wf(),
    {
        camera_window(self.config.layout, x, y, self.config.viewport_radius)
    }

    /// The cells of the current generation in window `w`, row by row.
    pub fn read_back(&self, w: Window) -> (r: Vec<Cell>)
        requires
            self.wf(),
            w.wf(),
        ensures
            r@ == window_cells(self@, w),
    {
        read_window(self.buffers.input(), w)
    }
}

} // verus!
