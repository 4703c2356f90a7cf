//! The mathematical model of a board and of its annotation.
//!
//! A board is a sequence of rows, top to bottom, and a row is a sequence of
//! cells, left to right. A cell is one byte: [`MINE`] marks a mine, and every
//! other byte is an empty cell. The annotation of a board is text: one
//! character for each cell.

use vstd::prelude::*;
use vstd::utf8::encode_utf8;

verus! {

/// The byte of a cell that holds a mine: `*`.
pub const MINE: u8 = 42;

/// The byte of an empty cell with no mine next to it: a space.
pub const BLANK: u8 = 32;

/// The byte of the digit `0`. An empty cell with `n` mines next to it is
/// written as the byte `ZERO + n`.
pub const ZERO: u8 = 48;

/// The cells of a board that is written as text: the bytes of each row's
/// UTF-8 encoding. In a row of ASCII characters every character is one cell.
pub open spec fn cells(rows: Seq<Seq<char>>) -> Seq<Seq<u8>> {
    Seq::new(rows.len(), |y: int| encode_utf8(rows[y]))
}

/// Every row is as long as the first one.
pub open spec fn is_rectangular(board: Seq<Seq<u8>>) -> bool {
    forall|y: int| 0 <= y < board.len() ==> (#[trigger] board[y]).len() == board[0].len()
}

/// Row `y`, column `x` is a position of the board.
pub open spec fn in_bounds(board: Seq<Seq<u8>>, y: int, x: int) -> bool {
    0 <= y < board.len() && 0 <= x < board[y].len()
}

/// Row `y`, column `x` is a position of the board and holds a mine.
pub open spec fn has_mine(board: Seq<Seq<u8>>, y: int, x: int) -> bool {
    in_bounds(board, y, x) && board[y][x] == MINE
}

/// 1 where row `y`, column `x` holds a mine, 0 where it holds none or lies
/// outside the board.
pub open spec fn mines_at(board: Seq<Seq<u8>>, y: int, x: int) -> int {
    if has_mine(board, y, x) {
        1
    } else {
        0
    }
}

/// The number of mines on the eight positions around row `y`, column `x`:
/// the four that share an edge with it and the four that share a corner.
/// Positions outside the board count as empty.
pub open spec fn neighbour_mines(board: Seq<Seq<u8>>, y: int, x: int) -> int {
    mines_at(board, y - 1, x - 1) + mines_at(board, y - 1, x) + mines_at(board, y - 1, x + 1)
        + mines_at(board, y, x - 1) + mines_at(board, y, x + 1)
        + mines_at(board, y + 1, x - 1) + mines_at(board, y + 1, x) + mines_at(board, y + 1, x + 1)
}

/// How a count of neighbouring mines is written: a space for none, else the
/// decimal digit.
pub open spec fn count_char(n: int) -> char {
    if n == 0 {
        ' '
    } else {
        (ZERO + n) as char
    }
}

/// The annotation of one cell: a mine stays a mine, an empty cell shows the
/// number of mines around it.
pub open spec fn annotated_cell(board: Seq<Seq<u8>>, y: int, x: int) -> char {
    if board[y][x] == MINE {
        '*'
    } else {
        count_char(neighbour_mines(board, y, x))
    }
}

/// The annotation of a board: text of the same shape, with
/// [`annotated_cell`] at every position.
pub open spec fn annotation(board: Seq<Seq<u8>>) -> Seq<Seq<char>> {
    Seq::new(
        board.len(),
        |y: int| Seq::new(board[y].len(), |x: int| annotated_cell(board, y, x)),
    )
}

} // verus!
