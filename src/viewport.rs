//! The part of the grid around the camera that is worth updating and drawing.
use vstd::prelude::*;

use crate::hex_grid::{
    hex_raw, rect_axis, uv_to_hexel_position, uv_to_rect_grid_coord, world_space_to_uv, world_uv,
    world_uv_fits, Fraction, Layout,
};
use crate::world::{clamp, index_of, lemma_index_round_trip, width, Cell, WorldCoord, WorldOffset};
use crate::{WORLD_CELLS, WORLD_WIDTH};

verus! {

/// The half-open rectangle of cells `[low, high)`.
#[derive(Clone, Copy, Debug, PartialEq, Eq, Structural)]
pub struct Window {
    pub low: WorldCoord,
    pub high: WorldCoord,
}

impl Window {
    /// A rectangle on the grid, possibly empty.
    pub open spec fn wf(self) -> bool {
        self.low.x <= self.high.x <= WORLD_WIDTH && self.low.y <= self.high.y <= WORLD_WIDTH
    }

    pub open spec fn columns(self) -> int {
        self.high.x - self.low.x
    }

    pub open spec fn rows(self) -> int {
        self.high.y - self.low.y
    }
}

/// The window of `radius` cells on each side of `center`, clamped onto the grid;
/// with no radius, the whole grid.
pub open spec fn window_around(center: WorldCoord, radius: Option<u32>) -> Window {
    match radius {
        None => Window {
            low: WorldCoord { x: 0, y: 0 },
            high: WorldCoord { x: WORLD_WIDTH, y: WORLD_WIDTH },
        },
        Some(r) => Window {
            low: WorldCoord {
                x: clamp(center.x - r, 0, width() - 1) as usize,
                y: clamp(center.y - r, 0, width() - 1) as usize,
            },
            high: WorldCoord {
                x: (clamp(center.x + r, 0, width() - 1) + 1) as usize,
                y: (clamp(center.y + r, 0, width() - 1) + 1) as usize,
            },
        },
    }
}

/// The window of `radius` cells on each side of `center`, clamped onto the
/// grid; with no radius, the whole grid.
pub fn viewport_window(center: WorldCoord, radius: Option<u32>) -> (r: Window)
    requires
        center.valid(),
    ensures
        r == window_around(center, radius),
        r.wf(),
{
    match radius {
        None => Window {
            low: WorldCoord { x: 0, y: 0 },
            high: WorldCoord { x: WORLD_WIDTH, y: WORLD_WIDTH },
        },
        Some(r) => {
            let reach: i32 = if r > WORLD_WIDTH as u32 {
                WORLD_WIDTH as i32
            } else {
                r as i32
            };
            let low = center.add_clamped(WorldOffset { x: -reach, y: -reach });
            let top = center.add_clamped(WorldOffset { x: reach, y: reach });
            Window { low, high: WorldCoord { x: top.x + 1, y: top.y + 1 } }
        },
    }
}

/// The cell the camera at world position `(x, y)` looks at, clamped onto the grid.
pub open spec fn camera_cell(layout: Layout, x: Fraction, y: Fraction) -> WorldCoord {
    let uv = world_uv(layout, x, y);
    match layout {
        Layout::Rect => WorldCoord { x: rect_axis(uv.0) as usize, y: rect_axis(uv.1) as usize },
        Layout::Hex => WorldCoord {
            x: clamp(hex_raw(uv.0, uv.1).0, 0, width() - 1) as usize,
            y: clamp(hex_raw(uv.0, uv.1).1, 0, width() - 1) as usize,
        },
    }
}

fn clamp_onto_grid(v: i128) -> (r: usize)
    ensures
        r == clamp(v as int, 0, width() - 1),
{
    if v < 0 {
        0
    } else if v > WORLD_WIDTH as i128 - 1 {
        WORLD_WIDTH - 1
    } else {
        v as usize
    }
}

/// The cell the camera at world position `(x, y)` looks at, clamped onto the grid.
pub fn camera_center(layout: Layout, x: Fraction, y: Fraction) -> (r: WorldCoord)
    requires
        x.wf(),
        y.wf(),
        world_uv_fits(layout, x, y),
    ensures
        r == camera_cell(layout, x, y),
        r.valid(),
{
    let (u, v) = world_space_to_uv(layout, x, y);
    match layout {
        Layout::Rect => uv_to_rect_grid_coord(u, v),
        Layout::Hex => {
            let (hx, hy) = uv_to_hexel_position(u, v);
            WorldCoord { x: clamp_onto_grid(hx), y: clamp_onto_grid(hy) }
        },
    }
}

/// The window of `radius` cells around the cell the camera looks at.
pub fn camera_window(layout: Layout, x: Fraction, y: Fraction, radius: Option<u32>) -> (r: Window)
    requires
        x.wf(),
        y.wf(),
        world_uv_fits(layout, x, y),
    ensures
        r == window_around(camera_cell(layout, x, y), radius),
        r.wf(),
{
    let center = camera_center(layout, x, y);
    viewport_window(center, radius)
}

/// The cells of window `w` of grid `g`, row by row.
pub open spec fn window_cells(g: Seq<Cell>, w: Window) -> Seq<Cell> {
    Seq::new(
        (w.columns() * w.rows()) as nat,
        |k: int| g[index_of(w.low.x + k % w.columns(), w.low.y + k / w.columns())],
    )
}

/// Copies out the cells of window `w`, row by row.
pub fn read_window(cells: &[Cell], w: Window) -> (r: Vec<Cell>)
    requires
        cells@.len() == WORLD_CELLS,
        w.wf(),
    ensures
        r@ == window_cells(cells@, w),
{
    let ghost cols = w.columns();
    let mut out: Vec<Cell> = Vec::new();
    let mut y: usize = w.low.y;
    while y < w.high.y
        invariant
            cells@.len() == WORLD_CELLS,
            w.wf(),
            cols == w.columns(),
            w.low.y <= y <= w.high.y,
            out@.len() == (y - w.low.y) * cols,
            forall|k: int|
                0 <= k < out@.len() ==> #[trigger] out@[k] == cells@[index_of(
                    w.low.x + k % cols,
                    w.low.y + k / cols,
                )],
        decreases w.high.y - y,
    {
        let mut x: usize = w.low.x;
        while x < w.high.x
            invariant
                cells@.len() == WORLD_CELLS,
                w.wf(),
                cols == w.columns(),
                w.low.y <= y < w.high.y,
                w.low.x <= x <= w.high.x,
                out@.len() == (y - w.low.y) * cols + (x - w.low.x),
                forall|k: int|
                    0 <= k < out@.len() ==> #[trigger] out@[k] == cells@[index_of(
                        w.low.x + k % cols,
                        w.low.y + k / cols,
                    )],
            decreases w.high.x - x,
        {
            let ghost k = out@.len() as int;
            proof {
                vstd::arithmetic::div_mod::lemma_fundamental_div_mod_converse(
                    k,
                    cols,
                    y - w.low.y,
                    x - w.low.x,
                );
                lemma_index_round_trip(WorldCoord { x, y });
            }
            out.push(cells[y * WORLD_WIDTH + x]);
            x = x + 1;
        }
        proof {
            assert((y - w.low.y) * cols + cols == (y + 1 - w.low.y) * cols) by (nonlinear_arith);
        }
        y = y + 1;
    }
    proof {
        assert(out@.len() == cols * w.rows()) by (nonlinear_arith)
            requires
                out@.len() == (y - w.low.y) * cols,
                y == w.high.y,
        ;
    }
    assert(out@ =~= window_cells(cells@, w));
    out
}

} // verus!
