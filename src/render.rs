//! Colours of cells for drawing: living cells opaque black, dead cells opaque
//! white, positions off the grid transparent.
use vstd::prelude::*;
use vstd::string::*;

use crate::hex_grid::{hex_raw, uv_to_hexel_coord, Fraction};
use crate::util::DOption;
use crate::world::{cell_at, in_grid, lemma_index_round_trip, Cell, WorldCoord};
use crate::WORLD_CELLS;

verus! {

/// Red, green, blue and alpha, one byte each.
pub type Rgba = (u8, u8, u8, u8);

/// The colour of a cell.
pub open spec fn color_of(c: Cell) -> Rgba {
    match c {
        Cell::Alive => (0, 0, 0, 255),
        Cell::Dead => (255, 255, 255, 255),
    }
}

/// The colour of a cell.
pub fn cell_color(c: Cell) -> (r: Rgba)
    ensures
        r == color_of(c),
{
    match c {
        Cell::Alive => (0, 0, 0, 255),
        Cell::Dead => (255, 255, 255, 255),
    }
}

/// The byte at position `j` of the RGBA image of `cells`.
pub open spec fn image_byte(cells: Seq<Cell>, j: int) -> u8 {
    let c = color_of(cells[j / 4]);
    if j % 4 == 0 {
        c.0
    } else if j % 4 == 1 {
        c.1
    } else if j % 4 == 2 {
        c.2
    } else {
        c.3
    }
}

/// The RGBA image of `cells`: four bytes per cell, in order.
pub fn colors_of(cells: &[Cell]) -> (r: Vec<u8>)
    requires
        cells@.len() <= WORLD_CELLS,
    ensures
        r@.len() == 4 * cells@.len(),
        forall|j: int| 0 <= j < r@.len() ==> #[trigger] r@[j] == image_byte(cells@, j),
{
    let mut out: Vec<u8> = Vec::new();
    let mut i: usize = 0;
    while i < cells.len()
        invariant
            cells@.len() <= WORLD_CELLS,
            i <= cells@.len(),
            out@.len() == 4 * i,
            forall|j: int| 0 <= j < out@.len() ==> #[trigger] out@[j] == image_byte(cells@, j),
        decreases cells@.len() - i,
    {
        let (red, green, blue, alpha) = cell_color(cells[i]);
        out.push(red);
        out.push(green);
        out.push(blue);
        out.push(alpha);
        proof {
            assert forall|j: int| 4 * i <= j < 4 * i + 4 implies out@[j] == image_byte(cells@, j) by {
                vstd::arithmetic::div_mod::lemma_fundamental_div_mod_converse(j, 4, i as int, j - 4 * i);
            }
        }
        i = i + 1;
    }
    out
}

/// Fully transparent.
pub open spec fn transparent() -> Rgba {
    (0, 0, 0, 0)
}

/// The colour drawn at normalized coordinates `(u, v)` of the hexagonal layout.
pub open spec fn hexel_color_spec(cells: Seq<Cell>, u: Fraction, v: Fraction) -> Rgba {
    let h = hex_raw(u, v);
    if in_grid(h.0, h.1) {
        color_of(cell_at(cells, h.0, h.1))
    } else {
        transparent()
    }
}

/// The colour drawn at normalized coordinates `(u, v)` of the hexagonal
/// layout: that of the hexagon there, or transparent off the grid.
pub fn hexel_color(cells: &[Cell], u: Fraction, v: Fraction) -> (r: Rgba)
    requires
        cells@.len() == WORLD_CELLS,
        u.wf(),
        v.wf(),
    ensures
        r == hexel_color_spec(cells@, u, v),
{
    match uv_to_hexel_coord(u, v) {
        DOption(true, coord) => {
            proof {
                lemma_index_round_trip(coord);
            }
            cell_color(cells[crate::world::get_index(coord)])
        },
        DOption(false, _) => (0, 0, 0, 0),
    }
}

/// The character that shows a cell in text: `#` alive, `-` dead.
pub open spec fn symbol(c: Cell) -> char {
    match c {
        Cell::Alive => '#',
        Cell::Dead => '-',
    }
}

/// The characters of a sequence of cells.
pub open spec fn symbols(cells: Seq<Cell>) -> Seq<char> {
    cells.map_values(|c: Cell| symbol(c))
}

/// `cells` as text, `columns` cells per line, lines separated by newlines.
pub open spec fn text_of(cells: Seq<Cell>, columns: int) -> Seq<char>
    decreases cells.len(),
{
    if cells.len() <= columns || columns <= 0 {
        symbols(cells)
    } else {
        text_of(cells.take(cells.len() - columns), columns) + seq!['\n'] + symbols(
            cells.skip(cells.len() - columns),
        )
    }
}

impl Cell {
    /// The character that shows this cell, as a string.
    pub fn to_string(&self) -> (r: String)
        ensures
            r@ == seq![symbol(*self)],
    {
        match self {
            Cell::Alive => {
                proof {
                    reveal_strlit("#");
                }
                String::from_str("#")
            },
            Cell::Dead => {
                proof {
                    reveal_strlit("-");
                }
                String::from_str("-")
            },
        }
    }
}

/// `cells` as text, `columns` cells per line: one line per row of a window
/// read back with that many columns.
pub fn cells_text(cells: &[Cell], columns: usize) -> (r: String)
    requires
        columns > 0,
        (cells@.len() as int) % (columns as int) == 0,
    ensures
        r@ == text_of(cells@, columns as int),
{
    let ghost g = cells@;
    let mut text = String::new();
    let mut start: usize = 0;
    while start < cells.len()
        invariant
            g == cells@,
            columns > 0,
            (g.len() as int) % (columns as int) == 0,
            start <= g.len(),
            (start as int) % (columns as int) == 0,
            text@ == text_of(g.take(start as int), columns as int),
        decreases g.len() - start,
    {
        proof {
            vstd::arithmetic::div_mod::lemma_fundamental_div_mod(g.len() as int, columns as int);
            vstd::arithmetic::div_mod::lemma_fundamental_div_mod(start as int, columns as int);
            assert(g.len() - start >= columns) by (nonlinear_arith)
                requires
                    g.len() == columns * ((g.len() as int) / (columns as int)),
                    start == columns * ((start as int) / (columns as int)),
                    start < g.len(),
                    columns > 0,
            ;
        }
        let ghost prefix = text@;
        if start > 0 {
            proof {
                reveal_strlit("\n");
            }
            text.append("\n");
        }
        let end: usize = start + columns;
        let mut i: usize = start;
        while i < end
            invariant
                g == cells@,
                columns > 0,
                end == start + columns,
                end <= g.len(),
                start <= i <= end,
                text@ == prefix + (if start > 0 {
                    seq!['\n']
                } else {
                    Seq::empty()
                }) + symbols(g.subrange(start as int, i as int)),
            decreases end - i,
        {
            let piece = cells[i].to_string();
            text.append(piece.as_str());
            assert(symbols(g.subrange(start as int, i + 1)) =~= symbols(
                g.subrange(start as int, i as int),
            ) + piece@);
            i = i + 1;
        }
        proof {
            let next = g.take(start + columns);
            assert(next.take(start as int) =~= g.take(start as int));
            assert(next.skip(start as int) =~= g.subrange(start as int, start + columns));
            if start > 0 {
                assert(text_of(next, columns as int) == text_of(next.take(start as int), columns as int)
                    + seq!['\n'] + symbols(next.skip(start as int)));
            } else {
                assert(text_of(next, columns as int) == symbols(next));
                assert(next =~= g.subrange(0, columns as int));
            }
            assert(text@ =~= text_of(next, columns as int));
            assert((start + columns) as int % (columns as int) == 0) by {
                vstd::arithmetic::div_mod::lemma_mod_add_multiples_vanish(start as int, columns as int);
            }
        }
        start = end;
    }
    assert(g.take(g.len() as int) =~= g);
    text
}

} // verus!
