//! Double buffering: two grids that take turns as the input read by a
//! generation step and the output it writes.
use vstd::prelude::*;

use crate::engine::{lemma_window_matches_full, tick_spec, tick_window};
use crate::kernel::dispatch_kernel;
use crate::viewport::{read_window, window_cells, Window};
use crate::world::{Cell, WorldCoord};
use crate::{WORLD_CELLS, WORLD_WIDTH};

verus! {

/// Which implementation of the transition computes a generation.
#[derive(Clone, Copy, Debug, PartialEq, Eq, Structural)]
pub enum Backend {
    /// The whole-grid step of the engine.
    General,
    /// The per-cell kernel, run invocation by invocation.
    Kernel,
}

/// A grid of dead cells.
pub open spec fn dead_grid() -> Seq<Cell> {
    Seq::new(WORLD_CELLS as nat, |i: int| Cell::Dead)
}

/// The buffers after a generation step: the input is kept and the output
/// holds the next generation of it.
pub open spec fn dispatched(v: (Seq<Cell>, Seq<Cell>)) -> (Seq<Cell>, Seq<Cell>) {
    (v.0, tick_spec(v.0))
}

/// The buffers after their roles are exchanged.
pub open spec fn swapped(v: (Seq<Cell>, Seq<Cell>)) -> (Seq<Cell>, Seq<Cell>) {
    (v.1, v.0)
}

/// Two grids, one tagged input and the other output.
pub struct BufferPair {
    first: Vec<Cell>,
    second: Vec<Cell>,
    input_is_first: bool,
    backend: Backend,
}

impl View for BufferPair {
    /// The input grid, then the output grid.
    type V = (Seq<Cell>, Seq<Cell>);

    closed spec fn view(&self) -> (Seq<Cell>, Seq<Cell>) {
        if self.input_is_first {
            (self.first@, self.second@)
        } else {
            (self.second@, self.first@)
        }
    }
}

fn dead_cells() -> (r: Vec<Cell>)
    ensures
        r@ == dead_grid(),
{
    let mut cells: Vec<Cell> = Vec::with_capacity(WORLD_CELLS);
    let mut i: usize = 0;
    while i < WORLD_CELLS
        invariant
            i <= WORLD_CELLS,
            cells@ == Seq::new(i as nat, |j: int| Cell::Dead),
        decreases WORLD_CELLS - i,
    {
        cells.push(Cell::Dead);
        i = i + 1;
        assert(cells@ =~= Seq::new(i as nat, |j: int| Cell::Dead));
    }
    cells
}

impl BufferPair {
    /// Both grids are full.
    pub open spec fn wf(&self) -> bool {
        self@.0.len() == WORLD_CELLS && self@.1.len() == WORLD_CELLS
    }

    /// The implementation that computes each generation.
    pub closed spec fn backend_spec(&self) -> Backend {
        self.backend
    }

    /// Two dead grids, computed on by `backend`.
    pub fn new(backend: Backend) -> (r: BufferPair)
        ensures
            r.wf(),
            r@ == (dead_grid(), dead_grid()),
            r.backend_spec() == backend,
    {
        BufferPair { first: dead_cells(), second: dead_cells(), input_is_first: true, backend }
    }

    /// The implementation that computes each generation.
    pub fn backend(&self) -> (r: Backend)
        ensures
            r == self.backend_spec(),
    {
        self.backend
    }

    /// Copies `cells` into the grid tagged input.
    pub fn copy_to_buffer(&mut self, cells: &[Cell])
        requires
            old(self).wf(),
            cells@.len() == WORLD_CELLS,
        ensures
            final(self)@ == (cells@, old(self)@.1),
            final(self).backend_spec() == old(self).backend_spec(),
    {
        let mut i: usize = 0;
        if self.input_is_first {
            while i < WORLD_CELLS
                invariant
                    self.input_is_first,
                    self.second@ == old(self)@.1,
                    self.backend == old(self).backend,
                    cells@.len() == WORLD_CELLS,
                    self.first@.len() == WORLD_CELLS,
                    i <= WORLD_CELLS,
                    forall|j: int| 0 <= j < i ==> self.first@[j] == cells@[j],
                decreases WORLD_CELLS - i,
            {
                self.first.set(i, cells[i]);
                i = i + 1;
            }
            assert(self.first@ =~= cells@);
        } else {
            while i < WORLD_CELLS
                invariant
                    !self.input_is_first,
                    self.first@ == old(self)@.1,
                    self.backend == old(self).backend,
                    cells@.len() == WORLD_CELLS,
                    self.second@.len() == WORLD_CELLS,
                    i <= WORLD_CELLS,
                    forall|j: int| 0 <= j < i ==> self.second@[j] == cells@[j],
                decreases WORLD_CELLS - i,
            {
                self.second.set(i, cells[i]);
                i = i + 1;
            }
            assert(self.second@ =~= cells@);
        }
    }

    /// Computes the next generation of the input into the output. Only the
    /// output is written, and its previous contents are never read.
    pub fn dispatch(&mut self)
        requires
            old(self).wf(),
        ensures
            final(self)@ == dispatched(old(self)@),
            final(self).backend_spec() == old(self).backend_spec(),
    {
        let low = WorldCoord { x: 0, y: 0 };
        let high = WorldCoord { x: WORLD_WIDTH, y: WORLD_WIDTH };
        if self.input_is_first {
            proof {
                lemma_window_matches_full(self.first@, self.second@, low, high);
            }
            match self.backend {
                Backend::General => tick_window(self.first.as_slice(), &mut self.second, low, high),
                Backend::Kernel => dispatch_kernel(
                    self.first.as_slice(),
                    self.second.as_mut_slice(),
                ),
            }
        } else {
            proof {
                lemma_window_matches_full(self.second@, self.first@, low, high);
            }
            match self.backend {
                Backend::General => tick_window(self.second.as_slice(), &mut self.first, low, high),
                Backend::Kernel => dispatch_kernel(
                    self.second.as_slice(),
                    self.first.as_mut_slice(),
                ),
            }
        }
    }

    /// Exchanges the roles: the last output becomes the next input, and the
    /// storage of the old input will be the next output. Only the tags move;
    /// no cell is copied.
    pub fn swap_buffers(&mut self)
        requires
            old(self).wf(),
        ensures
            final(self)@ == swapped(old(self)@),
            final(self).wf(),
            final(self).backend_spec() == old(self).backend_spec(),
    {
        self.input_is_first = !self.input_is_first;
    }

    /// The grid tagged input.
    pub fn input(&self) -> (r: &[Cell])
        ensures
            r@ == self@.0,
    {
        if self.input_is_first {
            self.first.as_slice()
        } else {
            self.second.as_slice()
        }
    }

    /// The cells of the output grid in window `w`, row by row: after a step,
    /// the generation it just wrote.
    pub fn read_back(&self, w: Window) -> (r: Vec<Cell>)
        requires
            self.wf(),
            w.wf(),
        ensures
            r@ == window_cells(self@.1, w),
    {
        read_window(self.output(), w)
    }

    /// The grid tagged output.
    pub fn output(&self) -> (r: &[Cell])
        ensures
            r@ == self@.1,
    {
        if self.input_is_first {
            self.second.as_slice()
        } else {
            self.first.as_slice()
        }
    }
}

/// After a step and a swap, the input holds exactly what the step wrote to the
/// output, that is the next generation of the old input; and what the output
/// held before the step never matters: two buffer pairs with the same input
/// end up equal.
pub proof fn lemma_step_then_swap(p: (Seq<Cell>, Seq<Cell>), q: (Seq<Cell>, Seq<Cell>))
    requires
        p.0 == q.0,
    ensures
        swapped(dispatched(p)).0 == dispatched(p).1,
        swapped(dispatched(p)).0 == tick_spec(p.0),
        swapped(dispatched(p)).1 == p.0,
        swapped(dispatched(p)) == swapped(dispatched(q)),
{
}

} // verus!
