//! Mappings between world space, normalized view coordinates and grid cells,
//! for the rectangular and the hexagonal layout. Positions are exact fractions.
use vstd::prelude::*;

use crate::util::DOption;
use crate::world::{clamp, in_grid, width, WorldCoord};
use crate::WORLD_WIDTH;

verus! {

/// Largest denominator of a [`Fraction`]: products of two denominators, and of
/// a denominator with a scaled numerator, then fit in 128 bits.
pub const MAX_DEN: i64 = 1152921504606846976;

/// The rational number `num / den`.
#[derive(Clone, Copy, Debug, PartialEq, Eq, Structural)]
pub struct Fraction {
    pub num: i64,
    pub den: i64,
}

impl Fraction {
    pub open spec fn wf(self) -> bool {
        0 < self.den <= MAX_DEN
    }
}

/// How cells tile the plane.
#[derive(Clone, Copy, Debug, PartialEq, Eq, Structural)]
pub enum Layout {
    /// Flattened hexagons; the grid is six times wider than high in world space.
    Hex,
    /// Squares; the grid is as wide as high.
    Rect,
}

/// World-space width of the grid in units of its height.
pub open spec fn multiplier(layout: Layout) -> int {
    match layout {
        Layout::Hex => 6,
        Layout::Rect => 1,
    }
}

/// World-space width of the grid in units of its height.
pub fn width_multiplier(layout: Layout) -> (r: i64)
    ensures
        r == multiplier(layout),
{
    match layout {
        Layout::Hex => 6,
        Layout::Rect => 1,
    }
}

/// Normalized coordinates of the world-space point `(x, y)`: the grid, centred
/// on the origin, spans `[0, 1)` on each axis.
pub open spec fn world_uv(layout: Layout, x: Fraction, y: Fraction) -> (Fraction, Fraction) {
    let span = x.den * (width() * multiplier(layout));
    (
        Fraction { num: (x.num + span / 2) as i64, den: span as i64 },
        Fraction { num: (y.num + y.den * width() / 2) as i64, den: (y.den * width()) as i64 },
    )
}

/// Whether the values of [`world_uv`] fit the fraction type.
pub open spec fn world_uv_fits(layout: Layout, x: Fraction, y: Fraction) -> bool {
    let span = x.den * (width() * multiplier(layout));
    &&& span <= MAX_DEN
    &&& y.den * width() <= MAX_DEN
    &&& i64::MIN <= x.num + span / 2 <= i64::MAX
    &&& i64::MIN <= y.num + y.den * width() / 2 <= i64::MAX
}

/// Maps a world-space position to normalized coordinates.
pub fn world_space_to_uv(layout: Layout, x: Fraction, y: Fraction) -> (r: (Fraction, Fraction))
    requires
        x.wf(),
        y.wf(),
        world_uv_fits(layout, x, y),
    ensures
        r == world_uv(layout, x, y),
        r.0.wf(),
        r.1.wf(),
{
    let w = WORLD_WIDTH as i64;
    let scale: i64 = w * width_multiplier(layout);
    proof {
        assert(x.den * scale >= x.den && y.den * w >= y.den) by (nonlinear_arith)
            requires
                x.den > 0,
                y.den > 0,
                scale >= 1,
                w >= 1,
        ;
    }
    let span: i64 = x.den * scale;
    let u = Fraction { num: x.num + span / 2, den: span };
    let v = Fraction { num: y.num + y.den * w / 2, den: y.den * w };
    (u, v)
}

/// `n` divided by `d`, rounded down, with the remainder.
fn floor_div(n: i128, d: i128) -> (r: (i128, i128))
    requires
        0 < d,
        d < 0x1000_0000_0000_0000_0000_0000_0000_0000,
        -0x1000_0000_0000_0000_0000_0000_0000_0000 < n < 0x1000_0000_0000_0000_0000_0000_0000_0000,
    ensures
        r.0 == n / d,
        r.1 == n % d,
        0 <= r.1 < d,
        n >= 0 ==> 0 <= r.0 <= n,
        n < 0 ==> n <= r.0 < 0,
{
    if n >= 0 {
        let q = ((n as u128) / (d as u128)) as i128;
        let m = ((n as u128) % (d as u128)) as i128;
        proof {
            vstd::arithmetic::div_mod::lemma_fundamental_div_mod(n as int, d as int);
            assert(q <= n) by (nonlinear_arith)
                requires
                    n == d * q + m,
                    0 <= m,
                    0 <= q,
                    1 <= d,
            ;
        }
        (q, m)
    } else {
        let k: u128 = (-n - 1) as u128;
        let q1 = (k / (d as u128)) as i128;
        let m1 = (k % (d as u128)) as i128;
        proof {
            vstd::arithmetic::div_mod::lemma_fundamental_div_mod(k as int, d as int);
            assert(n == (-q1 - 1) * d + (d - m1 - 1)) by (nonlinear_arith)
                requires
                    k == d * q1 + m1,
                    k == -n - 1,
            ;
            assert(q1 <= k) by (nonlinear_arith)
                requires
                    k == d * q1 + m1,
                    0 <= m1,
                    0 <= q1,
                    1 <= d,
            ;
            vstd::arithmetic::div_mod::lemma_fundamental_div_mod_converse(
                n as int,
                d as int,
                -q1 - 1,
                d - m1 - 1,
            );
        }
        (-q1 - 1, d - m1 - 1)
    }
}

/// Grid coordinate along one axis of the rectangular layout: the normalized
/// coordinate scaled to the grid, rounded down and clamped onto it.
pub open spec fn rect_axis(f: Fraction) -> int {
    clamp((f.num * width()) / (f.den as int), 0, width() - 1)
}

fn rect_axis_exec(f: Fraction) -> (r: usize)
    requires
        f.wf(),
    ensures
        r == rect_axis(f),
{
    let (q, _) = floor_div(f.num as i128 * WORLD_WIDTH as i128, f.den as i128);
    if q < 0 {
        0
    } else if q > WORLD_WIDTH as i128 - 1 {
        WORLD_WIDTH - 1
    } else {
        q as usize
    }
}

/// The cell of the rectangular layout under normalized coordinates `(u, v)`,
/// clamped onto the grid.
pub fn uv_to_rect_grid_coord(u: Fraction, v: Fraction) -> (r: WorldCoord)
    requires
        u.wf(),
        v.wf(),
    ensures
        r.valid(),
        r.x == rect_axis(u),
        r.y == rect_axis(v),
{
    WorldCoord { x: rect_axis_exec(u), y: rect_axis_exec(v) }
}

/// The hexagon under normalized coordinates `(u, v)`, as an unbounded pair of
/// integers.
///
/// The point is placed in a lattice of parallelograms: `3 * WIDTH * u` gives
/// the column and the position `x_in` inside it, `WIDTH * v / 2`, shifted down
/// by one half in odd columns, gives the row and the position `y_in`. Past
/// `x_in > 2/3` the point may belong to a hexagon of the next column: above
/// the line `y_in + 3/2 x_in - 2 = 0` or below `y_in - 3/2 x_in + 1 = 0`. The
/// tests are strict, so points on those lines stay in their column.
pub open spec fn hex_raw(u: Fraction, v: Fraction) -> (int, int) {
    let ud = u.den as int;
    let vd = v.den as int;
    let a = 3 * width() * u.num;
    let column = a / ud;
    let xr = a % ud;
    let odd = column % 2;
    let b = width() * v.num - odd * vd;
    let row = b / (2 * vd);
    let yr = b % (2 * vd);
    // x_in = xr / u.den and y_in = yr / (2 * v.den)
    let possibly_out = 3 * xr > 2 * ud;
    let upper = yr * ud + 3 * xr * vd > 4 * ud * vd;
    let lower = yr * ud + 2 * ud * vd < 3 * xr * vd;
    let column2 = if possibly_out && (upper || lower) {
        column + 1
    } else {
        column
    };
    let row2 = if possibly_out && upper && odd == 1 {
        row + 1
    } else if possibly_out && lower && odd == 0 {
        row - 1
    } else {
        row
    };
    (column2 / 2 - row2, 2 * row2 + column2 % 2)
}

/// The hexagon under normalized coordinates `(u, v)`, on the grid or not.
pub fn uv_to_hexel_position(u: Fraction, v: Fraction) -> (r: (i128, i128))
    requires
        u.wf(),
        v.wf(),
    ensures
        r.0 == hex_raw(u, v).0,
        r.1 == hex_raw(u, v).1,
{
    let ud = u.den as i128;
    let vd = v.den as i128;
    let w = WORLD_WIDTH as i128;
    let (column, xr) = floor_div(1536 * (u.num as i128), ud);
    let (_, odd) = floor_div(column, 2);
    let shift: i128 = if odd == 1 {
        vd
    } else {
        0
    };
    let (row, yr) = floor_div(512 * (v.num as i128) - shift, 2 * vd);
    proof {
        assert(0 <= xr < ud && 0 <= yr < 2 * vd);
        vstd::arithmetic::mul::lemma_mul_upper_bound(
            yr as int,
            2 * MAX_DEN,
            ud as int,
            MAX_DEN as int,
        );
        vstd::arithmetic::mul::lemma_mul_upper_bound(xr as int, MAX_DEN as int, vd as int, MAX_DEN as int);
        vstd::arithmetic::mul::lemma_mul_upper_bound(ud as int, MAX_DEN as int, vd as int, MAX_DEN as int);
    }
    let possibly_out = 3 * xr > 2 * ud;
    let upper = yr * ud + 3 * (xr * vd) > 4 * (ud * vd);
    let lower = yr * ud + 2 * (ud * vd) < 3 * (xr * vd);
    proof {
        assert(3 * (xr * vd) == 3 * xr * vd) by (nonlinear_arith);
        assert(4 * (ud * vd) == 4 * ud * vd) by (nonlinear_arith);
        assert(2 * (ud * vd) == 2 * ud * vd) by (nonlinear_arith);
    }
    let mut column2 = column;
    let mut row2 = row;
    if possibly_out {
        if upper || lower {
            column2 = column + 1;
        }
        if upper && odd == 1 {
            row2 = row + 1;
        }
        if lower && odd == 0 {
            row2 = row - 1;
        }
    }
    let (half, parity) = floor_div(column2, 2);
    (half - row2, 2 * row2 + parity)
}

/// The hexagon of the grid under normalized coordinates `(u, v)`, or nothing
/// when that hexagon lies off the grid.
pub fn uv_to_hexel_coord(u: Fraction, v: Fraction) -> (r: DOption<WorldCoord>)
    requires
        u.wf(),
        v.wf(),
    ensures
        r.0 == in_grid(hex_raw(u, v).0, hex_raw(u, v).1),
        r.0 ==> r.1.x == hex_raw(u, v).0 && r.1.y == hex_raw(u, v).1,
{
    let (hx, hy) = uv_to_hexel_position(u, v);
    let w = WORLD_WIDTH as i128;
    if 0 <= hx && hx < w && 0 <= hy && hy < w {
        DOption::some(WorldCoord { x: hx as usize, y: hy as usize })
    } else {
        DOption::none()
    }
}

/// World-space centre of the hexagon `(hx, hy)` of the hexagonal layout.
///
/// Hexagon `(hx, hy)` lies in row `hy / 2` of the parallelogram lattice, in
/// column `2 * (hx + hy / 2) + hy % 2`; its centre is one third into that
/// column and half way up its row.
pub open spec fn hex_center_world(hx: int, hy: int) -> (Fraction, Fraction) {
    let row = hy / 2;
    let odd = hy % 2;
    let column = 2 * (hx + row) + odd;
    (
        Fraction { num: (6 * column + 2 - 9 * width()) as i64, den: 3 },
        Fraction { num: (2 * row + 1 + odd - width() / 2) as i64, den: 1 },
    )
}

/// The centre of every hexagon of the grid, taken from world space to
/// normalized coordinates and then to a hexagon, gives that same hexagon.
pub proof fn lemma_hex_center_round_trip(hx: int, hy: int)
    requires
        in_grid(hx, hy),
    ensures
        ({
            let c = hex_center_world(hx, hy);
            let uv = world_uv(Layout::Hex, c.0, c.1);
            &&& c.0.wf()
            &&& c.1.wf()
            &&& world_uv_fits(Layout::Hex, c.0, c.1)
            &&& uv.0.wf()
            &&& uv.1.wf()
            &&& hex_raw(uv.0, uv.1) == (hx, hy)
        }),
{
    let row = hy / 2;
    let odd = hy % 2;
    let column = 2 * (hx + row) + odd;
    let c = hex_center_world(hx, hy);
    let uv = world_uv(Layout::Hex, c.0, c.1);
    assert(uv.0.num == 6 * column + 2 && uv.0.den == 9216);
    assert(uv.1.num == 2 * row + 1 + odd && uv.1.den == 512);
    let a = 3 * width() * uv.0.num;
    assert(3 * width() == 1536);
    assert(a == 9216 * column + 3072) by (nonlinear_arith)
        requires
            a == 3 * width() * uv.0.num,
            3 * width() == 1536,
            uv.0.num == 6 * column + 2,
    ;
    vstd::arithmetic::div_mod::lemma_fundamental_div_mod_converse(a, 9216, column, 3072);
    vstd::arithmetic::div_mod::lemma_fundamental_div_mod_converse(column, 2, hx + row, odd);
    let b = width() * uv.1.num - odd * 512;
    assert(b == 1024 * row + 512) by (nonlinear_arith)
        requires
            b == width() * uv.1.num - odd * 512,
            width() == 512,
            uv.1.num == 2 * row + 1 + odd,
    ;
    vstd::arithmetic::div_mod::lemma_fundamental_div_mod_converse(b, 1024, row, 512);
}

} // verus!
