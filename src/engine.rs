//! The transition engine: whole-grid and windowed generation steps.
use vstd::prelude::*;

use crate::world::{
    cell_at, column_of, in_grid, index_of, lemma_index_round_trip, lemma_scan_bounds,
    lemma_scan_complete, living_neighbors, next_cell, next_state, row_of, scan_count, Cell,
    WorldCoord,
};
use crate::{WORLD_CELLS, WORLD_WIDTH};

verus! {

/// The generation that follows `g`.
pub open spec fn tick_spec(g: Seq<Cell>) -> Seq<Cell> {
    Seq::new(WORLD_CELLS as nat, |i: int| next_cell(g, column_of(i), row_of(i)))
}

/// Whether `(x, y)` lies in the half-open rectangle `[low, high)`.
pub open spec fn in_window(low: WorldCoord, high: WorldCoord, x: int, y: int) -> bool {
    low.x <= x < high.x && low.y <= y < high.y
}

/// `out` with every cell of the window `[low, high)` replaced by its state in
/// the generation after `g`.
pub open spec fn tick_window_spec(
    g: Seq<Cell>,
    out: Seq<Cell>,
    low: WorldCoord,
    high: WorldCoord,
) -> Seq<Cell> {
    Seq::new(
        out.len(),
        |i: int|
            if in_window(low, high, column_of(i), row_of(i)) {
                next_cell(g, column_of(i), row_of(i))
            } else {
                out[i]
            },
    )
}

/// The cell at `(x, y)`, read with bounds checks; off the grid it is dead.
pub fn get_cell(cells: &[Cell], x: i32, y: i32) -> (r: Cell)
    requires
        cells@.len() == WORLD_CELLS,
    ensures
        r == cell_at(cells@, x as int, y as int),
{
    if x < 0 || y < 0 || x >= WORLD_WIDTH as i32 || y >= WORLD_WIDTH as i32 {
        Cell::Dead
    } else {
        proof {
            lemma_index_round_trip(WorldCoord { x: x as usize, y: y as usize });
        }
        cells[y as usize * WORLD_WIDTH + x as usize]
    }
}

/// Number of living neighbours of `(x, y)`; neighbours off the grid count as dead.
pub fn count_living_neighbors(cells: &[Cell], x: i32, y: i32) -> (r: i32)
    requires
        cells@.len() == WORLD_CELLS,
        i32::MIN < x < i32::MAX,
        i32::MIN < y < i32::MAX,
    ensures
        r == living_neighbors(cells@, x as int, y as int),
        0 <= r <= 8,
{
    let ghost g = cells@;
    let mut count: i32 = 0;
    let mut x1: i32 = -1;
    while x1 <= 1
        invariant
            g == cells@,
            g.len() == WORLD_CELLS,
            i32::MIN < x < i32::MAX,
            i32::MIN < y < i32::MAX,
            -1 <= x1 <= 2,
            count == scan_count(g, x as int, y as int, (x1 + 1) * 3),
        decreases 2 - x1,
    {
        let mut y1: i32 = -1;
        while y1 <= 1
            invariant
                g == cells@,
                g.len() == WORLD_CELLS,
                i32::MIN < x < i32::MAX,
                i32::MIN < y < i32::MAX,
                -1 <= x1 <= 1,
                -1 <= y1 <= 2,
                count == scan_count(g, x as int, y as int, (x1 + 1) * 3 + y1 + 1),
            decreases 2 - y1,
        {
            let ghost k = (x1 + 1) * 3 + y1 + 1;
            proof {
                assert(k / 3 - 1 == x1 && k % 3 - 1 == y1);
                lemma_scan_bounds(g, x as int, y as int, k);
            }
            if get_cell(cells, x + x1, y + y1) == Cell::Alive && !(x1 == 0 && y1 == 0) {
                count = count + 1;
            }
            y1 = y1 + 1;
        }
        x1 = x1 + 1;
    }
    proof {
        lemma_scan_complete(g, x as int, y as int);
        lemma_scan_bounds(g, x as int, y as int, 9);
    }
    count
}

/// State of the cell at `(x, y)` in the next generation.
pub fn get_new_state(cells: &[Cell], x: usize, y: usize) -> (r: Cell)
    requires
        cells@.len() == WORLD_CELLS,
        in_grid(x as int, y as int),
    ensures
        r == next_cell(cells@, x as int, y as int),
{
    let cell = get_cell(cells, x as i32, y as i32);
    let n = count_living_neighbors(cells, x as i32, y as i32);
    next_state(cell, n)
}

/// The next generation of a full grid. The input is only read.
pub fn tick(cells: &Vec<Cell>) -> (r: Vec<Cell>)
    requires
        cells@.len() == WORLD_CELLS,
    ensures
        r@ == tick_spec(cells@),
{
    let mut new_cells: Vec<Cell> = Vec::with_capacity(WORLD_CELLS);
    let mut i: usize = 0;
    while i < WORLD_CELLS
        invariant
            cells@.len() == WORLD_CELLS,
            i <= WORLD_CELLS,
            new_cells@.len() == i,
            forall|j: int| 0 <= j < i ==> new_cells@[j] == next_cell(cells@, column_of(j), row_of(j)),
        decreases WORLD_CELLS - i,
    {
        let x = i % WORLD_WIDTH;
        let y = i / WORLD_WIDTH;
        new_cells.push(get_new_state(cells.as_slice(), x, y));
        i = i + 1;
    }
    assert(new_cells@ =~= tick_spec(cells@));
    new_cells
}

/// Writes into `output` the next state of every cell in the window
/// `[low, high)`, reading neighbours from `input`; the rest of `output` is kept.
pub fn tick_window(input: &[Cell], output: &mut Vec<Cell>, low: WorldCoord, high: WorldCoord)
    requires
        input@.len() == WORLD_CELLS,
        old(output)@.len() == WORLD_CELLS,
        high.x <= WORLD_WIDTH,
        high.y <= WORLD_WIDTH,
    ensures
        final(output)@ == tick_window_spec(input@, old(output)@, low, high),
{
    let ghost before = output@;
    let mut x: usize = low.x;
    while x < high.x
        invariant
            input@.len() == WORLD_CELLS,
            output@.len() == WORLD_CELLS,
            high.x <= WORLD_WIDTH,
            high.y <= WORLD_WIDTH,
            low.x <= x,
            forall|i: int|
                #![trigger output@[i]]
                0 <= i < WORLD_CELLS ==> output@[i] == if in_window(low, high, column_of(i), row_of(i))
                    && column_of(i) < x {
                    next_cell(input@, column_of(i), row_of(i))
                } else {
                    before[i]
                },
        decreases high.x - x,
    {
        let mut y: usize = low.y;
        while y < high.y
            invariant
                input@.len() == WORLD_CELLS,
                output@.len() == WORLD_CELLS,
                high.x <= WORLD_WIDTH,
                high.y <= WORLD_WIDTH,
                low.x <= x < high.x,
                low.y <= y,
                forall|i: int|
                    #![trigger output@[i]]
                    0 <= i < WORLD_CELLS ==> output@[i] == if in_window(
                        low,
                        high,
                        column_of(i),
                        row_of(i),
                    ) && (column_of(i) < x || (column_of(i) == x && row_of(i) < y)) {
                        next_cell(input@, column_of(i), row_of(i))
                    } else {
                        before[i]
                    },
            decreases high.y - y,
        {
            let coord = WorldCoord { x, y };
            proof {
                lemma_index_round_trip(coord);
                assert forall|i: int| 0 <= i < WORLD_CELLS && i != index_of(x as int, y as int)
                    implies !(column_of(i) == x && row_of(i) == y) by {
                    vstd::arithmetic::div_mod::lemma_fundamental_div_mod(i, WORLD_WIDTH as int);
                }
            }
            let cell = get_new_state(input, x, y);
            output.set(y * WORLD_WIDTH + x, cell);
            y = y + 1;
        }
        x = x + 1;
    }
    assert(output@ =~= tick_window_spec(input@, before, low, high));
}

/// A step is a function of the grid alone: two steps of equal grids give equal grids.
pub proof fn lemma_tick_deterministic(g1: Seq<Cell>, g2: Seq<Cell>)
    requires
        g1 == g2,
    ensures
        tick_spec(g1) == tick_spec(g2),
{
}

/// Updating a window gives, on each of its cells, the state that a full step
/// gives; every cell outside the window keeps its value; and the window that
/// covers the grid gives the full step.
pub proof fn lemma_window_matches_full(
    g: Seq<Cell>,
    out: Seq<Cell>,
    low: WorldCoord,
    high: WorldCoord,
)
    requires
        g.len() == WORLD_CELLS,
        out.len() == WORLD_CELLS,
    ensures
        forall|x: int, y: int|
            #![trigger index_of(x, y)]
            in_grid(x, y) && in_window(low, high, x, y) ==> tick_window_spec(g, out, low, high)[index_of(
                x,
                y,
            )] == tick_spec(g)[index_of(x, y)],
        forall|x: int, y: int|
            #![trigger index_of(x, y)]
            in_grid(x, y) && !in_window(low, high, x, y) ==> tick_window_spec(g, out, low, high)[index_of(
                x,
                y,
            )] == out[index_of(x, y)],
        low.x == 0 && low.y == 0 && high.x == WORLD_WIDTH && high.y == WORLD_WIDTH ==> tick_window_spec(
            g,
            out,
            low,
            high,
        ) == tick_spec(g),
{
    assert forall|x: int, y: int| #![trigger index_of(x, y)] in_grid(x, y) implies 0 <= index_of(x, y)
        < WORLD_CELLS && column_of(index_of(x, y)) == x && row_of(index_of(x, y)) == y by {
        lemma_index_round_trip(WorldCoord { x: x as usize, y: y as usize });
    }
    if low.x == 0 && low.y == 0 && high.x == WORLD_WIDTH && high.y == WORLD_WIDTH {
        assert forall|i: int| 0 <= i < WORLD_CELLS implies in_window(low, high, column_of(i), row_of(i)) by {
            vstd::arithmetic::div_mod::lemma_fundamental_div_mod(i, WORLD_WIDTH as int);
            assert(row_of(i) < WORLD_WIDTH) by (nonlinear_arith)
                requires i == WORLD_WIDTH * row_of(i) + column_of(i), 0 <= column_of(i), i < 262144;
        }
        assert(tick_window_spec(g, out, low, high) =~= tick_spec(g));
    }
}

/// Off-grid neighbours count as dead: a cell whose neighbours on the grid are
/// all dead has no living neighbour, at a corner or an edge as anywhere else.
pub proof fn lemma_boundary_closed(g: Seq<Cell>, x: int, y: int)
    requires
        g.len() == WORLD_CELLS,
        forall|dx: int, dy: int|
            -1 <= dx <= 1 && -1 <= dy <= 1 && !(dx == 0 && dy == 0) && in_grid(x + dx, y + dy)
                ==> #[trigger] g[index_of(x + dx, y + dy)] == Cell::Dead,
    ensures
        living_neighbors(g, x, y) == 0,
{
    assert(g[index_of(x + -1, y + -1)] == Cell::Dead || !in_grid(x - 1, y - 1));
    assert(g[index_of(x + -1, y + 0)] == Cell::Dead || !in_grid(x - 1, y));
    assert(g[index_of(x + -1, y + 1)] == Cell::Dead || !in_grid(x - 1, y + 1));
    assert(g[index_of(x + 0, y + -1)] == Cell::Dead || !in_grid(x, y - 1));
    assert(g[index_of(x + 0, y + 1)] == Cell::Dead || !in_grid(x, y + 1));
    assert(g[index_of(x + 1, y + -1)] == Cell::Dead || !in_grid(x + 1, y - 1));
    assert(g[index_of(x + 1, y + 0)] == Cell::Dead || !in_grid(x + 1, y));
    assert(g[index_of(x + 1, y + 1)] == Cell::Dead || !in_grid(x + 1, y + 1));
}

} // verus!
