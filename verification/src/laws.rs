//! What holds of every board and of every annotation.

use vstd::prelude::*;
use vstd::utf8::{is_ascii_chars, is_ascii_chars_encode_utf8};
use crate::board::{
    annotation, cells, count_char, has_mine, in_bounds, is_rectangular, mines_at,
    neighbour_mines, BLANK, MINE,
};
use crate::strip::stripped;

verus! {

/// A row of ASCII characters has one cell for each character: the
/// character's own code. So rows of ASCII text of one length make a board
/// whose rows have one length.
pub proof fn lemma_cells_of_ascii(rows: Seq<Seq<char>>)
    ensures
        forall|y: int|
            0 <= y < rows.len() && is_ascii_chars(rows[y]) ==> (#[trigger] cells(rows)[y]).len()
                == rows[y].len(),
        forall|y: int, x: int|
            0 <= y < rows.len() && is_ascii_chars(rows[y]) && 0 <= x < rows[y].len()
                ==> #[trigger] cells(rows)[y][x] == rows[y][x] as u8,
{
    assert forall|y: int| 0 <= y < rows.len() && is_ascii_chars(rows[y]) implies {
        &&& (#[trigger] cells(rows)[y]).len() == rows[y].len()
        &&& forall|x: int|
            0 <= x < rows[y].len() ==> #[trigger] cells(rows)[y][x] == rows[y][x] as u8
    } by {
        is_ascii_chars_encode_utf8(rows[y]);
    }
}

/// A cell has at most eight mines around it.
pub proof fn lemma_neighbour_mines_bounds(board: Seq<Seq<u8>>, y: int, x: int)
    ensures
        0 <= neighbour_mines(board, y, x) <= 8,
{
}

/// An annotation has the shape of its board: as many rows, and in each row
/// as many characters as the board's row has cells.
pub proof fn lemma_annotation_shape(board: Seq<Seq<u8>>)
    ensures
        annotation(board).len() == board.len(),
        forall|y: int|
            0 <= y < board.len() ==> (#[trigger] annotation(board)[y]).len() == board[y].len(),
{
}

/// An annotation is written with ten characters: the mine, the space and
/// the digits `1` to `8`. The mine stands on the mines of the board and
/// nowhere else.
pub proof fn lemma_annotation_alphabet(board: Seq<Seq<u8>>, y: int, x: int)
    requires
        in_bounds(board, y, x),
    ensures
        annotation(board)[y][x] == '*' || annotation(board)[y][x] == ' ' || '1'
            <= annotation(board)[y][x] <= '8',
        annotation(board)[y][x] == '*' <==> has_mine(board, y, x),
{
}

/// The annotation of a board that is written as ASCII text, character by
/// character: a row keeps its length, a `*` stays a `*`, and every other
/// character gives way to the count of the mines around it.
pub proof fn lemma_annotation_of_ascii(rows: Seq<Seq<char>>, y: int, x: int)
    requires
        0 <= y < rows.len(),
        is_ascii_chars(rows[y]),
        0 <= x < rows[y].len(),
    ensures
        annotation(cells(rows))[y].len() == rows[y].len(),
        rows[y][x] == '*' ==> annotation(cells(rows))[y][x] == '*',
        rows[y][x] != '*' ==> annotation(cells(rows))[y][x] == count_char(
            neighbour_mines(cells(rows), y, x),
        ),
{
    lemma_cells_of_ascii(rows);
}

/// Text without its annotation is a board of mines and blanks with one cell
/// for each character, and its mines are the `*` of the text.
pub proof fn lemma_stripped_cells(rows: Seq<Seq<char>>, y: int)
    requires
        0 <= y < rows.len(),
    ensures
        cells(stripped(rows))[y].len() == rows[y].len(),
        forall|x: int|
            0 <= x < rows[y].len() ==> #[trigger] cells(stripped(rows))[y][x] == (if rows[y][x]
                == '*' {
                MINE
            } else {
                BLANK
            }),
{
    assert(is_ascii_chars(stripped(rows)[y]));
    lemma_cells_of_ascii(stripped(rows));
}

/// Annotating an annotated board anew changes nothing. Take the annotation
/// off an annotated board, so that only its mines are left, and annotate
/// what is left: the result is the annotated board again. What is left of a
/// board with rows of one length has rows of one length too, so it can be
/// annotated.
pub proof fn lemma_annotation_round_trip(board: Seq<Seq<u8>>)
    ensures
        is_rectangular(board) ==> is_rectangular(cells(stripped(annotation(board)))),
        annotation(cells(stripped(annotation(board)))) == annotation(board),
{
    let mines_only = cells(stripped(annotation(board)));
    assert forall|y: int| 0 <= y < board.len() implies {
        &&& (#[trigger] mines_only[y]).len() == board[y].len()
        &&& forall|x: int|
            0 <= x < board[y].len() ==> (#[trigger] mines_only[y][x] == MINE) == (board[y][x]
                == MINE)
    } by {
        lemma_stripped_cells(annotation(board), y);
    }
    assert forall|y: int, x: int|
        mines_at(board, y, x) == #[trigger] mines_at(mines_only, y, x) by {}
    assert(annotation(mines_only) =~~= annotation(board));
}

/// An annotated board can be annotated as it is, since only its mines
/// count: the result is the same annotated board.
pub proof fn lemma_annotation_idempotent(board: Seq<Seq<u8>>)
    ensures
        is_rectangular(board) ==> is_rectangular(cells(annotation(board))),
        annotation(cells(annotation(board))) == annotation(board),
{
    let annotated = cells(annotation(board));
    assert forall|y: int| 0 <= y < board.len() implies {
        &&& (#[trigger] annotated[y]).len() == board[y].len()
        &&& forall|x: int|
            0 <= x < board[y].len() ==> (#[trigger] annotated[y][x] == MINE) == (board[y][x]
                == MINE)
    } by {
        assert(is_ascii_chars(annotation(board)[y]));
        lemma_cells_of_ascii(annotation(board));
    }
    assert forall|y: int, x: int|
        mines_at(board, y, x) == #[trigger] mines_at(annotated, y, x) by {}
    assert(annotation(annotated) =~~= annotation(board));
}

} // verus!
