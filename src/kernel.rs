//! The transition as a data-parallel kernel: one invocation per cell, each
//! reading the shared input grid and writing its own cell of the output grid.
use vstd::prelude::*;

use crate::engine::{in_window, tick_spec, tick_window_spec};
use crate::world::{
    column_of, in_grid, index_of, lemma_index_round_trip, next_cell, row_of, Cell, WorldCoord,
    WorldCursor,
};
use crate::{WORLD_CELLS, WORLD_WIDTH};

verus! {

/// Stores `cell` at the row-major position of `coord` in `buf`.
pub fn set_cell_at(buf: &mut [Cell], coord: WorldCoord, cell: Cell)
    requires
        index_of(coord.x as int, coord.y as int) < old(buf)@.len(),
    ensures
        final(buf)@ == old(buf)@.update(index_of(coord.x as int, coord.y as int), cell),
        final(buf)@.len() == old(buf)@.len(),
{
    buf[crate::world::get_index(coord)] = cell;
}

/// Writes the next state of the cell at `coord` into `output`.
pub fn update_cell(input: &[Cell], output: &mut [Cell], coord: WorldCoord)
    requires
        input@.len() == WORLD_CELLS,
        old(output)@.len() == WORLD_CELLS,
        coord.valid(),
    ensures
        final(output)@ == old(output)@.update(
            index_of(coord.x as int, coord.y as int),
            next_cell(input@, coord.x as int, coord.y as int),
        ),
{
    proof {
        lemma_index_round_trip(coord);
    }
    let cursor = WorldCursor::new(input, coord);
    let new_state = cursor.get_new_state();
    set_cell_at(output, coord, new_state);
}

/// The invocation at global position `(gx, gy)`: on the grid it updates that
/// cell; elsewhere it does nothing.
pub fn run_invocation(input: &[Cell], output: &mut [Cell], gx: u32, gy: u32)
    requires
        input@.len() == WORLD_CELLS,
        old(output)@.len() == WORLD_CELLS,
    ensures
        in_grid(gx as int, gy as int) ==> final(output)@ == old(output)@.update(
            index_of(gx as int, gy as int),
            next_cell(input@, gx as int, gy as int),
        ),
        !in_grid(gx as int, gy as int) ==> final(output)@ == old(output)@,
{
    if (gx as usize) < WORLD_WIDTH && (gy as usize) < WORLD_WIDTH {
        update_cell(input, output, WorldCoord { x: gx as usize, y: gy as usize });
    }
}

/// Runs every invocation of a dispatch that covers the grid; the output then
/// holds the next generation of the input, whatever it held before.
pub fn dispatch_kernel(input: &[Cell], output: &mut [Cell])
    requires
        input@.len() == WORLD_CELLS,
        old(output)@.len() == WORLD_CELLS,
    ensures
        final(output)@ == tick_spec(input@),
{
    let ghost before = output@;
    let extent: u32 = WORLD_WIDTH as u32;
    let mut gy: u32 = 0;
    while gy < extent
        invariant
            extent == WORLD_WIDTH,
            input@.len() == WORLD_CELLS,
            output@.len() == WORLD_CELLS,
            gy <= extent,
            forall|i: int|
                #![trigger output@[i]]
                0 <= i < WORLD_CELLS ==> output@[i] == if row_of(i) < gy {
                    next_cell(input@, column_of(i), row_of(i))
                } else {
                    before[i]
                },
        decreases extent - gy,
    {
        let mut gx: u32 = 0;
        while gx < extent
            invariant
                extent == WORLD_WIDTH,
                input@.len() == WORLD_CELLS,
                output@.len() == WORLD_CELLS,
                gy < extent,
                gx <= extent,
                forall|i: int|
                    #![trigger output@[i]]
                    0 <= i < WORLD_CELLS ==> output@[i] == if row_of(i) < gy || (row_of(i) == gy
                        && column_of(i) < gx) {
                        next_cell(input@, column_of(i), row_of(i))
                    } else {
                        before[i]
                    },
            decreases extent - gx,
        {
            proof {
                lemma_index_round_trip(WorldCoord { x: gx as usize, y: gy as usize });
                assert forall|i: int|
                    0 <= i < WORLD_CELLS && i != index_of(gx as int, gy as int) implies !(
                    column_of(i) == gx && row_of(i) == gy) by {
                    vstd::arithmetic::div_mod::lemma_fundamental_div_mod(i, WORLD_WIDTH as int);
                }
            }
            run_invocation(input, output, gx, gy);
            gx = gx + 1;
        }
        gy = gy + 1;
    }
    proof {
        assert forall|i: int| 0 <= i < WORLD_CELLS implies row_of(i) < WORLD_WIDTH by {
            vstd::arithmetic::div_mod::lemma_fundamental_div_mod(i, WORLD_WIDTH as int);
            assert(row_of(i) < WORLD_WIDTH) by (nonlinear_arith)
                requires
                    i == WORLD_WIDTH * row_of(i) + column_of(i),
                    0 <= column_of(i),
                    i < 262144,
            ;
        }
    }
    assert(output@ =~= tick_spec(input@));
}

/// `out` after `update_cell` at each coordinate of `coords`, in that order.
pub open spec fn updates_applied(input: Seq<Cell>, out: Seq<Cell>, coords: Seq<WorldCoord>) -> Seq<
    Cell,
>
    decreases coords.len(),
{
    if coords.len() == 0 {
        out
    } else {
        let c = coords.last();
        updates_applied(input, out, coords.drop_last()).update(
            index_of(c.x as int, c.y as int),
            next_cell(input, c.x as int, c.y as int),
        )
    }
}

/// Whether some coordinate of `coords` lies at position `i` of the grid.
pub open spec fn hits(coords: Seq<WorldCoord>, i: int) -> bool {
    exists|k: int| 0 <= k < coords.len() && #[trigger] index_of(coords[k].x as int, coords[k].y as int) == i
}

/// The value of cell `i` after the updates at `coords`, cell by cell.
pub open spec fn updated_cell(input: Seq<Cell>, out: Seq<Cell>, coords: Seq<WorldCoord>, i: int) -> Cell {
    if hits(coords, i) {
        next_cell(input, column_of(i), row_of(i))
    } else {
        out[i]
    }
}

/// Every coordinate of `coords` lies in the window `[low, high)`.
pub open spec fn all_in_window(coords: Seq<WorldCoord>, low: WorldCoord, high: WorldCoord) -> bool {
    forall|k: int|
        0 <= k < coords.len() ==> in_window(low, high, #[trigger] coords[k].x as int, coords[k].y as int)
}

/// Every cell of the window `[low, high)` is among `coords`.
pub open spec fn covers_window(coords: Seq<WorldCoord>, low: WorldCoord, high: WorldCoord) -> bool {
    forall|x: int, y: int|
        #![trigger in_window(low, high, x, y)]
        in_window(low, high, x, y) ==> exists|k: int|
            0 <= k < coords.len() && #[trigger] coords[k].x == x && coords[k].y == y
}

/// After a sequence of updates, a cell holds its next state if some update
/// reached it, and its old value otherwise.
proof fn lemma_updates_pointwise(input: Seq<Cell>, out: Seq<Cell>, coords: Seq<WorldCoord>)
    requires
        out.len() == WORLD_CELLS,
        forall|k: int| 0 <= k < coords.len() ==> #[trigger] coords[k].valid(),
    ensures
        updates_applied(input, out, coords).len() == WORLD_CELLS,
        forall|i: int|
            0 <= i < WORLD_CELLS ==> #[trigger] updates_applied(input, out, coords)[i]
                == updated_cell(input, out, coords, i),
    decreases coords.len(),
{
    if coords.len() > 0 {
        let prev = coords.drop_last();
        let last = coords.len() - 1;
        let c = coords[last];
        assert(coords[last].valid());
        assert forall|k: int| 0 <= k < prev.len() implies #[trigger] prev[k].valid() by {
            assert(prev[k] == coords[k]);
            assert(coords[k].valid());
        }
        lemma_updates_pointwise(input, out, prev);
        lemma_index_round_trip(c);
        let at = index_of(c.x as int, c.y as int);
        assert forall|i: int| 0 <= i < WORLD_CELLS implies #[trigger] updates_applied(
            input,
            out,
            coords,
        )[i] == updated_cell(input, out, coords, i) by {
            if i == at {
                assert(index_of(coords[last].x as int, coords[last].y as int) == i);
                assert(hits(coords, i));
            } else {
                if hits(prev, i) {
                    let k = choose|k: int|
                        0 <= k < prev.len() && #[trigger] index_of(prev[k].x as int, prev[k].y as int)
                            == i;
                    assert(prev[k] == coords[k]);
                    assert(index_of(coords[k].x as int, coords[k].y as int) == i);
                }
                if hits(coords, i) {
                    let k = choose|k: int|
                        0 <= k < coords.len() && #[trigger] index_of(
                            coords[k].x as int,
                            coords[k].y as int,
                        ) == i;
                    assert(k != last);
                    assert(prev[k] == coords[k]);
                    assert(index_of(prev[k].x as int, prev[k].y as int) == i);
                }
            }
        }
    }
}

/// Running the kernel's `update_cell` once for every cell of a window, in any
/// order (repeats allowed), gives on the window the same states as a full
/// step, and leaves every other cell as it was: the windowed update.
pub proof fn lemma_updates_match_window(
    input: Seq<Cell>,
    out: Seq<Cell>,
    coords: Seq<WorldCoord>,
    low: WorldCoord,
    high: WorldCoord,
)
    requires
        input.len() == WORLD_CELLS,
        out.len() == WORLD_CELLS,
        high.x <= WORLD_WIDTH,
        high.y <= WORLD_WIDTH,
        all_in_window(coords, low, high),
        covers_window(coords, low, high),
    ensures
        updates_applied(input, out, coords) == tick_window_spec(input, out, low, high),
{
    assert forall|k: int| 0 <= k < coords.len() implies #[trigger] coords[k].valid() by {
        assert(in_window(low, high, coords[k].x as int, coords[k].y as int));
    }
    lemma_updates_pointwise(input, out, coords);
    let r = updates_applied(input, out, coords);
    let t = tick_window_spec(input, out, low, high);
    assert forall|i: int| 0 <= i < WORLD_CELLS implies r[i] == t[i] by {
        let x = column_of(i);
        let y = row_of(i);
        vstd::arithmetic::div_mod::lemma_fundamental_div_mod(i, WORLD_WIDTH as int);
        assert(0 <= x < WORLD_WIDTH);
        assert(0 <= y < WORLD_WIDTH) by (nonlinear_arith)
            requires
                i == WORLD_WIDTH * y + x,
                0 <= x < WORLD_WIDTH,
                0 <= i < WORLD_CELLS,
        ;
        assert(index_of(x, y) == i);
        if in_window(low, high, x, y) {
            let k = choose|k: int| 0 <= k < coords.len() && #[trigger] coords[k].x == x && coords[k].y == y;
            assert(index_of(coords[k].x as int, coords[k].y as int) == i);
            assert(hits(coords, i));
        }
        if hits(coords, i) {
            let k = choose|k: int|
                0 <= k < coords.len() && #[trigger] index_of(coords[k].x as int, coords[k].y as int)
                    == i;
            let c = coords[k];
            assert(in_window(low, high, c.x as int, c.y as int));
            lemma_index_round_trip(c);
            assert(x == c.x && y == c.y);
        }
    }
    assert(r =~= t);
}

} // verus!
