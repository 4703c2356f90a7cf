//! Turns a grid of cell bytes into text.

use vstd::prelude::*;
use vstd::string::StringExecFns;
use crate::board::{BLANK, MINE, ZERO};

verus! {

/// The bytes that an annotated board is made of: the mine, the blank and the
/// digits `1` to `8`.
pub open spec fn is_glyph(cell: u8) -> bool {
    cell == MINE || cell == BLANK || ZERO < cell <= ZERO + 8
}

/// The character that a cell byte stands for.
pub open spec fn glyph_of(cell: u8) -> char {
    cell as char
}

/// The text of one row of cell bytes.
pub open spec fn row_text(cells: Seq<u8>) -> Seq<char> {
    Seq::new(cells.len(), |x: int| glyph_of(cells[x]))
}

/// The one-character string for a cell byte.
pub(crate) fn glyph(cell: u8) -> (s: &'static str)
    requires
        is_glyph(cell),
    ensures
        s@ == seq![glyph_of(cell)],
{
    proof {
        reveal_strlit("*");
        reveal_strlit(" ");
        reveal_strlit("1");
        reveal_strlit("2");
        reveal_strlit("3");
        reveal_strlit("4");
        reveal_strlit("5");
        reveal_strlit("6");
        reveal_strlit("7");
        reveal_strlit("8");
    }
    let s = if cell == MINE {
        "*"
    } else if cell == BLANK {
        " "
    } else if cell == ZERO + 1 {
        "1"
    } else if cell == ZERO + 2 {
        "2"
    } else if cell == ZERO + 3 {
        "3"
    } else if cell == ZERO + 4 {
        "4"
    } else if cell == ZERO + 5 {
        "5"
    } else if cell == ZERO + 6 {
        "6"
    } else if cell == ZERO + 7 {
        "7"
    } else {
        "8"
    };
    assert(s@ =~= seq![glyph_of(cell)]);
    s
}

/// Writes one row of cell bytes as a string, a character for each cell.
pub(crate) fn render_row(cells: &Vec<u8>) -> (row: String)
    requires
        forall|x: int| 0 <= x < cells@.len() ==> is_glyph(#[trigger] cells@[x]),
    ensures
        row@ == row_text(cells@),
{
    let mut row = String::new();
    for x in 0..cells.len()
        invariant
            forall|x: int| 0 <= x < cells@.len() ==> is_glyph(#[trigger] cells@[x]),
            row@ == row_text(cells@.take(x as int)),
    {
        row.append(glyph(cells[x]));
        assert(row@ =~= row_text(cells@.take(x + 1)));
    }
    assert(cells@.take(cells@.len() as int) =~= cells@);
    row
}

/// Writes a grid of cell bytes as strings, one for each row.
pub(crate) fn render(grid: &Vec<Vec<u8>>) -> (out: Vec<String>)
    requires
        forall|y: int, x: int|
            0 <= y < grid@.len() && 0 <= x < grid@[y]@.len() ==> is_glyph(#[trigger] grid@[y]@[x]),
    ensures
        out@.len() == grid@.len(),
        forall|y: int| 0 <= y < grid@.len() ==> (#[trigger] out@[y])@ == row_text(grid@[y]@),
{
    let mut out: Vec<String> = Vec::new();
    for y in 0..grid.len()
        invariant
            forall|y: int, x: int|
                0 <= y < grid@.len() && 0 <= x < grid@[y]@.len() ==> is_glyph(
                    #[trigger] grid@[y]@[x],
                ),
            out@.len() == y,
            forall|r: int| 0 <= r < y ==> (#[trigger] out@[r])@ == row_text(grid@[r]@),
    {
        let row = render_row(&grid[y]);
        out.push(row);
    }
    out
}

} // verus!
