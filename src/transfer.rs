//! The layout of a grid for bulk transfer: one 32-bit word per cell, 0 for a
//! dead cell and 1 for a living one, in the grid's row-major order.
use vstd::prelude::*;

use crate::world::Cell;

verus! {

/// The word that stands for a cell.
pub open spec fn word_of(c: Cell) -> u32 {
    match c {
        Cell::Dead => 0,
        Cell::Alive => 1,
    }
}

impl Cell {
    /// The word that stands for this cell.
    pub fn to_word(self) -> (r: u32)
        ensures
            r == word_of(self),
    {
        match self {
            Cell::Dead => 0,
            Cell::Alive => 1,
        }
    }

    /// The cell a word stands for; nothing for a word other than 0 or 1.
    pub fn from_word(w: u32) -> (r: Option<Cell>)
        ensures
            w == 0 ==> r == Some(Cell::Dead),
            w == 1 ==> r == Some(Cell::Alive),
            w > 1 ==> r.is_none(),
    {
        if w == 0 {
            Some(Cell::Dead)
        } else if w == 1 {
            Some(Cell::Alive)
        } else {
            None
        }
    }
}

/// The words of a sequence of cells, in order.
pub open spec fn words_of(cells: Seq<Cell>) -> Seq<u32> {
    cells.map_values(|c: Cell| word_of(c))
}

/// The words of `cells`, in order.
pub fn cells_to_words(cells: &[Cell]) -> (r: Vec<u32>)
    ensures
        r@ == words_of(cells@),
{
    let mut out: Vec<u32> = Vec::new();
    let mut i: usize = 0;
    while i < cells.len()
        invariant
            i <= cells@.len(),
            out@ == words_of(cells@.take(i as int)),
        decreases cells@.len() - i,
    {
        out.push(cells[i].to_word());
        proof {
            assert(words_of(cells@.take(i + 1)) =~= words_of(cells@.take(i as int)).push(
                word_of(cells@[i as int]),
            ));
        }
        i = i + 1;
    }
    assert(cells@.take(cells@.len() as int) =~= cells@);
    out
}

/// The cells that `words` stand for, or nothing when a word is neither 0 nor 1.
pub fn words_to_cells(words: &[u32]) -> (r: Option<Vec<Cell>>)
    ensures
        r.is_some() <==> forall|j: int| 0 <= j < words@.len() ==> #[trigger] words@[j] <= 1,
        r.is_some() ==> words_of(r.unwrap()@) == words@,
{
    let mut out: Vec<Cell> = Vec::new();
    let mut i: usize = 0;
    while i < words.len()
        invariant
            i <= words@.len(),
            out@.len() == i,
            forall|j: int| 0 <= j < i ==> #[trigger] words@[j] <= 1,
            forall|j: int| 0 <= j < i ==> word_of(#[trigger] out@[j]) == words@[j],
        decreases words@.len() - i,
    {
        let w = words[i];
        let decoded = Cell::from_word(w);
        if decoded.is_none() {
            return None;
        }
        let c = decoded.unwrap();
        assert(word_of(c) == w);
        out.push(c);
        i = i + 1;
    }
    assert(words_of(out@) =~= words@);
    Some(out)
}

/// Every word of a grid is 0 or 1, and the only cells with the words of a
/// grid are that grid's: decoding its words gives it back.
pub proof fn lemma_words_round_trip(cells: Seq<Cell>)
    ensures
        forall|j: int| 0 <= j < cells.len() ==> #[trigger] words_of(cells)[j] <= 1,
        forall|s: Seq<Cell>| #[trigger] words_of(s) == words_of(cells) ==> s == cells,
{
    assert forall|s: Seq<Cell>| #[trigger] words_of(s) == words_of(cells) implies s == cells by {
        assert(words_of(s).len() == s.len() && words_of(cells).len() == cells.len());
        assert forall|j: int| 0 <= j < s.len() implies s[j] == cells[j] by {
            assert(words_of(s)[j] == words_of(cells)[j]);
        }
        assert(s =~= cells);
    }
}

} // verus!
