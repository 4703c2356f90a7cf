//! Takes the annotation off a board: what is left are its mines.

use vstd::prelude::*;
use vstd::string::StringExecFns;

verus! {

/// A row without its annotation: a mine stays, every other character becomes
/// a space.
pub open spec fn stripped_row(row: Seq<char>) -> Seq<char> {
    Seq::new(
        row.len(),
        |x: int|
            if row[x] == '*' {
                '*'
            } else {
                ' '
            },
    )
}

/// A board without its annotation: each row without its own.
pub open spec fn stripped(rows: Seq<Seq<char>>) -> Seq<Seq<char>> {
    Seq::new(rows.len(), |y: int| stripped_row(rows[y]))
}

/// Replaces every character of the row that is no mine by a space.
pub fn remove_annotations_in_row(row: &str) -> (out: String)
    ensures
        out@ == stripped_row(row@),
{
    let mut out = String::new();
    for ch in it: row.chars()
        invariant
            it.seq() == row@,
            out@ == stripped_row(row@.take(it.index())),
    {
        proof {
            reveal_strlit("*");
            reveal_strlit(" ");
        }
        if ch == '*' {
            out.append("*");
        } else {
            out.append(" ");
        }
        assert(out@ =~= stripped_row(row@.take(it.index() + 1)));
    }
    assert(row@.take(row@.len() as int) =~= row@);
    out
}

/// Replaces, in every row of the board, each character that is no mine by a
/// space.
pub fn remove_annotations(board: &[&str]) -> (out: Vec<String>)
    ensures
        out.deep_view() == stripped(board.deep_view()),
{
    let mut out: Vec<String> = Vec::new();
    for y in 0..board.len()
        invariant
            out@.len() == y,
            forall|r: int| 0 <= r < y ==> (#[trigger] out@[r])@ == stripped_row(board@[r]@),
    {
        let row = remove_annotations_in_row(board[y]);
        out.push(row);
    }
    assert(out.deep_view() =~~= stripped(board.deep_view()));
    out
}

} // verus!
