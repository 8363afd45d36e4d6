//! Cells, grid coordinates, and the neighbourhood rule.
use vstd::prelude::*;

use crate::util::DOption;
use crate::{WORLD_CELLS, WORLD_WIDTH};

verus! {

/// One cell of the automaton.
#[derive(PartialEq, Eq, Structural, Clone, Copy, Debug)]
pub enum Cell {
    Dead,
    Alive,
}

impl Default for Cell {
    fn default() -> (r: Cell)
        ensures
            r == Cell::Dead,
    {
        Cell::Dead
    }
}

/// The side of the grid as a mathematical integer.
pub open spec fn width() -> int {
    WORLD_WIDTH as int
}

/// Whether `(x, y)` lies on the grid.
pub open spec fn in_grid(x: int, y: int) -> bool {
    0 <= x < width() && 0 <= y < width()
}

/// Row-major position of `(x, y)` in the cell array.
pub open spec fn index_of(x: int, y: int) -> int {
    y * width() + x
}

/// Column of the cell stored at position `i`.
pub open spec fn column_of(i: int) -> int {
    i % width()
}

/// Row of the cell stored at position `i`.
pub open spec fn row_of(i: int) -> int {
    i / width()
}

/// A position on the grid.
#[derive(Clone, Copy, Debug, Default, PartialEq, Eq, Structural)]
pub struct WorldCoord {
    pub x: usize,
    pub y: usize,
}

impl WorldCoord {
    pub open spec fn valid(self) -> bool {
        in_grid(self.x as int, self.y as int)
    }
}

/// A relative displacement between grid positions.
#[derive(Clone, Copy, Debug, PartialEq, Eq, Structural)]
pub struct WorldOffset {
    pub x: i32,
    pub y: i32,
}

impl WorldOffset {
    /// The displacement that stays in place.
    pub fn zero() -> (r: WorldOffset)
        ensures
            r.x == 0 && r.y == 0,
    {
        WorldOffset { x: 0, y: 0 }
    }
}

/// `v` limited to the range `[lo, hi]`.
pub open spec fn clamp(v: int, lo: int, hi: int) -> int {
    if v < lo {
        lo
    } else if v > hi {
        hi
    } else {
        v
    }
}

impl WorldCoord {
    /// This position moved by `offset`, or nothing when the result leaves the
    /// grid; an absent result carries the origin `(0, 0)`.
    pub fn checked_add(self, offset: WorldOffset) -> (r: DOption<WorldCoord>)
        requires
            self.valid(),
        ensures
            r.0 == in_grid(self.x + offset.x, self.y + offset.y),
            r.0 ==> r.1.x == self.x + offset.x && r.1.y == self.y + offset.y,
            !r.0 ==> r.1.x == 0 && r.1.y == 0,
    {
        let x: i64 = self.x as i64 + offset.x as i64;
        let y: i64 = self.y as i64 + offset.y as i64;
        if x < 0 || y < 0 || x >= WORLD_WIDTH as i64 || y >= WORLD_WIDTH as i64 {
            DOption(false, WorldCoord { x: 0, y: 0 })
        } else {
            DOption::some(WorldCoord { x: x as usize, y: y as usize })
        }
    }

    /// This position moved by `offset`, each axis saturating at the grid's edges.
    pub fn add_clamped(&self, offset: WorldOffset) -> (r: WorldCoord)
        requires
            self.valid(),
        ensures
            r.valid(),
            r.x == clamp(self.x + offset.x, 0, width() - 1),
            r.y == clamp(self.y + offset.y, 0, width() - 1),
    {
        let x: i64 = clamp_axis(self.x as i64 + offset.x as i64);
        let y: i64 = clamp_axis(self.y as i64 + offset.y as i64);
        WorldCoord { x: x as usize, y: y as usize }
    }
}

fn clamp_axis(v: i64) -> (r: i64)
    ensures
        r == clamp(v as int, 0, width() - 1),
{
    if v < 0 {
        0
    } else if v > WORLD_WIDTH as i64 - 1 {
        WORLD_WIDTH as i64 - 1
    } else {
        v
    }
}

/// Position in the cell array of the cell at `coord` (row-major).
pub fn get_index(coord: WorldCoord) -> (r: usize)
    requires
        index_of(coord.x as int, coord.y as int) <= usize::MAX,
    ensures
        r == index_of(coord.x as int, coord.y as int),
{
    coord.y * WORLD_WIDTH + coord.x
}

/// Coordinate of the cell stored at position `index` (inverse of `get_index`).
pub fn coordinate_of(index: usize) -> (r: WorldCoord)
    ensures
        r.x == column_of(index as int),
        r.y == row_of(index as int),
{
    WorldCoord { x: index % WORLD_WIDTH, y: index / WORLD_WIDTH }
}

/// The cell at `(x, y)`; every position off the grid reads as dead.
pub open spec fn cell_at(g: Seq<Cell>, x: int, y: int) -> Cell {
    if in_grid(x, y) {
        g[index_of(x, y)]
    } else {
        Cell::Dead
    }
}

/// 1 for a living cell, 0 for a dead one.
pub open spec fn alive_count(c: Cell) -> int {
    if c == Cell::Alive {
        1
    } else {
        0
    }
}

/// Number of living cells among the eight neighbours of `(x, y)`.
pub open spec fn living_neighbors(g: Seq<Cell>, x: int, y: int) -> int {
    alive_count(cell_at(g, x - 1, y - 1)) + alive_count(cell_at(g, x - 1, y)) + alive_count(
        cell_at(g, x - 1, y + 1),
    ) + alive_count(cell_at(g, x, y - 1)) + alive_count(cell_at(g, x, y + 1)) + alive_count(
        cell_at(g, x + 1, y - 1),
    ) + alive_count(cell_at(g, x + 1, y)) + alive_count(cell_at(g, x + 1, y + 1))
}

/// The Life rule: a living cell survives with two or three living neighbours,
/// a dead cell comes alive with exactly three.
pub open spec fn rule(c: Cell, n: int) -> Cell {
    match c {
        Cell::Alive => if 2 <= n <= 3 {
            Cell::Alive
        } else {
            Cell::Dead
        },
        Cell::Dead => if n == 3 {
            Cell::Alive
        } else {
            Cell::Dead
        },
    }
}

/// State of the cell at `(x, y)` in the generation after `g`.
pub open spec fn next_cell(g: Seq<Cell>, x: int, y: int) -> Cell {
    rule(cell_at(g, x, y), living_neighbors(g, x, y))
}

/// Living cells among the first `k` positions of the 3x3 block around `(x, y)`,
/// scanned column by column (offsets `(-1, -1), (-1, 0), (-1, 1), (0, -1), ...`),
/// leaving out the centre.
pub open spec fn scan_count(g: Seq<Cell>, x: int, y: int, k: int) -> int
    decreases k,
{
    if k <= 0 {
        0
    } else {
        let dx = (k - 1) / 3 - 1;
        let dy = (k - 1) % 3 - 1;
        scan_count(g, x, y, k - 1) + if dx == 0 && dy == 0 {
            0
        } else {
            alive_count(cell_at(g, x + dx, y + dy))
        }
    }
}

/// A full scan of the block counts exactly the living neighbours.
pub proof fn lemma_scan_complete(g: Seq<Cell>, x: int, y: int)
    ensures
        scan_count(g, x, y, 9) == living_neighbors(g, x, y),
{
    reveal_with_fuel(scan_count, 10);
}

/// The scan count never exceeds the number of positions scanned.
pub proof fn lemma_scan_bounds(g: Seq<Cell>, x: int, y: int, k: int)
    ensures
        0 <= scan_count(g, x, y, k) <= if k < 0 { 0 } else { k },
    decreases k,
{
    if k > 0 {
        lemma_scan_bounds(g, x, y, k - 1);
    }
}

/// The rule applied to one cell given its number of living neighbours.
pub fn next_state(cell: Cell, living_neighbors: i32) -> (r: Cell)
    ensures
        r == rule(cell, living_neighbors as int),
{
    match cell {
        Cell::Alive => if 2 <= living_neighbors && living_neighbors <= 3 {
            Cell::Alive
        } else {
            Cell::Dead
        },
        Cell::Dead => if living_neighbors == 3 {
            Cell::Alive
        } else {
            Cell::Dead
        },
    }
}

/// Every grid position survives the trip through the linear index and back.
pub proof fn lemma_index_round_trip(coord: WorldCoord)
    requires
        coord.valid(),
    ensures
        column_of(index_of(coord.x as int, coord.y as int)) == coord.x,
        row_of(index_of(coord.x as int, coord.y as int)) == coord.y,
        0 <= index_of(coord.x as int, coord.y as int) < WORLD_CELLS,
{
    let x = coord.x as int;
    let y = coord.y as int;
    assert(0 <= y * 512 + x < 262144) by (nonlinear_arith)
        requires 0 <= x < 512, 0 <= y < 512;
    vstd::arithmetic::div_mod::lemma_fundamental_div_mod_converse(y * 512 + x, 512, y, x);
}

/// A read-only view of a grid positioned at one cell: the unit of work of a
/// parallel kernel, which computes the next state of that one cell.
pub struct WorldCursor<'a> {
    coord: WorldCoord,
    cells: &'a [Cell],
}

impl<'a> WorldCursor<'a> {
    /// The cells the cursor reads.
    pub closed spec fn grid(&self) -> Seq<Cell> {
        self.cells@
    }

    /// The position the cursor stands on.
    pub closed spec fn position(&self) -> WorldCoord {
        self.coord
    }

    /// A full grid and a position on it.
    pub open spec fn wf(&self) -> bool {
        self.grid().len() == WORLD_CELLS && self.position().valid()
    }

    pub fn new(cells: &'a [Cell], coord: WorldCoord) -> (r: WorldCursor<'a>)
        ensures
            r.grid() == cells@,
            r.position() == coord,
    {
        WorldCursor { coord, cells }
    }

    /// State of the cursor's cell in the next generation.
    pub fn get_new_state(&self) -> (r: Cell)
        requires
            self.wf(),
        ensures
            r == next_cell(self.grid(), self.position().x as int, self.position().y as int),
    {
        let cell = self.get_cell();
        let n = self.count_living_neighbors();
        next_state(cell, n)
    }

    /// The cell at `offset` from the cursor; off the grid it is dead.
    pub fn get_cell_at_offset(&self, offset: WorldOffset) -> (r: Cell)
        requires
            self.wf(),
        ensures
            r == cell_at(
                self.grid(),
                self.position().x + offset.x,
                self.position().y + offset.y,
            ),
    {
        match self.coord.checked_add(offset) {
            DOption(true, coord) => self.get_cell_at_coord(coord),
            DOption(false, _) => Cell::Dead,
        }
    }

    /// The cell at a position on the grid.
    pub fn get_cell_at_coord(&self, coord: WorldCoord) -> (r: Cell)
        requires
            self.wf(),
            coord.valid(),
        ensures
            r == cell_at(self.grid(), coord.x as int, coord.y as int),
    {
        proof {
            lemma_index_round_trip(coord);
        }
        self.cells[get_index(coord)]
    }

    /// The cursor's own cell.
    pub fn get_cell(&self) -> (r: Cell)
        requires
            self.wf(),
        ensures
            r == cell_at(self.grid(), self.position().x as int, self.position().y as int),
    {
        self.get_cell_at_offset(WorldOffset::zero())
    }

    /// Number of living neighbours of the cursor's cell.
    pub fn count_living_neighbors(&self) -> (r: i32)
        requires
            self.wf(),
        ensures
            r == living_neighbors(self.grid(), self.position().x as int, self.position().y as int),
            0 <= r <= 8,
    {
        let ghost g = self.grid();
        let ghost x = self.position().x as int;
        let ghost y = self.position().y as int;
        let mut count: i32 = 0;
        let mut dx: i32 = -1;
        while dx <= 1
            invariant
                self.wf(),
                g == self.grid(),
                x == self.position().x,
                y == self.position().y,
                -1 <= dx <= 2,
                count == scan_count(g, x, y, (dx + 1) * 3),
            decreases 2 - dx,
        {
            let mut dy: i32 = -1;
            while dy <= 1
                invariant
                    self.wf(),
                    g == self.grid(),
                    x == self.position().x,
                    y == self.position().y,
                    -1 <= dx <= 1,
                    -1 <= dy <= 2,
                    count == scan_count(g, x, y, (dx + 1) * 3 + dy + 1),
                decreases 2 - dy,
            {
                let ghost k = (dx + 1) * 3 + dy + 1;
                proof {
                    assert((k) / 3 - 1 == dx && (k) % 3 - 1 == dy);
                    lemma_scan_bounds(g, x, y, k);
                }
                if self.get_cell_at_offset(WorldOffset { x: dx, y: dy }) == Cell::Alive && !(dx
                    == 0 && dy == 0) {
                    count = count + 1;
                }
                dy = dy + 1;
            }
            dx = dx + 1;
        }
        proof {
            lemma_scan_complete(g, x, y);
            lemma_scan_bounds(g, x, y, 9);
        }
        count
    }
}

} // verus!
