//! Annotates a Minesweeper board: every empty cell gets the number of mines
//! on the eight cells around it.
//!
//! [`annotate`] takes the board as rows of text, `*` for a mine and a space
//! for an empty cell, and returns rows of the same shape in which each empty
//! cell that has mines next to it shows their number. [`board`] holds the
//! model that the contracts are stated over, [`laws`] what follows for every
//! board, and [`strip`] the way back from an annotated board to its mines.

pub mod board;
pub mod laws;
mod render;
pub mod strip;
mod sweep;

pub use crate::strip::{remove_annotations, remove_annotations_in_row};

use vstd::prelude::*;
use crate::board::{
    annotation, cells, count_char, has_mine, in_bounds, is_rectangular, neighbour_mines, BLANK,
    MINE,
};
use crate::render::render;
use crate::sweep::{
    lemma_sweep_done, lemma_sweep_empty, lemma_sweep_mine, lemma_sweep_next_row, lemma_sweep_room,
    lemma_sweep_start, mark_mine, swept_to,
};

verus! {

/// Annotates a board: returns it with every mine in its place and, in every
/// empty cell, the number of mines on the up to eight cells around it, as a
/// digit from `1` to `8`, or a space where there is none.
///
/// The board is read byte by byte. The byte `*` is a mine, and every other
/// byte is taken for an empty cell, so a board may hold an earlier
/// annotation. In a row of ASCII text each character is one cell
/// ([`crate::laws::lemma_cells_of_ascii`]); a character outside ASCII
/// makes as many empty cells as its UTF-8 encoding has bytes.
///
/// All rows must have the same number of cells, as rows of ASCII text of one
/// length have. There may be no rows, and the rows may be empty.
pub fn annotate(minefield: &[&str]) -> (out: Vec<String>)
    requires
        is_rectangular(cells(minefield.deep_view())),
    ensures
        out.deep_view() == annotation(cells(minefield.deep_view())),
        out@.len() == minefield@.len(),
        forall|y: int|
            0 <= y < minefield@.len() ==> (#[trigger] out@[y])@.len() == cells(
                minefield.deep_view(),
            )[y].len(),
        forall|y: int, x: int|
            has_mine(cells(minefield.deep_view()), y, x) ==> #[trigger] out@[y]@[x] == '*',
        forall|y: int, x: int|
            in_bounds(cells(minefield.deep_view()), y, x) && !has_mine(
                cells(minefield.deep_view()),
                y,
                x,
            ) ==> #[trigger] out@[y]@[x] == count_char(
                neighbour_mines(cells(minefield.deep_view()), y, x),
            ),
{
    let ghost board = cells(minefield.deep_view());
    let height = minefield.len();
    let width = if height >= 1 {
        minefield[0].as_bytes().len()
    } else {
        0
    };
    let mut grid = vec![vec![BLANK; width]; height];
    proof {
        lemma_sweep_start(board, grid@);
    }
    for y in 0..height
        invariant
            board == cells(minefield.deep_view()),
            is_rectangular(board),
            height == board.len(),
            height >= 1 ==> width == board[0].len(),
            swept_to(board, grid@, y as int, 0),
    {
        let line = minefield[y].as_bytes();
        for x in 0..width
            invariant
                is_rectangular(board),
                height == board.len(),
                y < height,
                width == board[0].len(),
                line@ == board[y as int],
                swept_to(board, grid@, y as int, x as int),
        {
            if line[x] == MINE {
                let ghost before = grid@;
                proof {
                    lemma_sweep_room(board, before, y as int, x as int);
                }
                mark_mine(&mut grid, y, x, height, width);
                proof {
                    lemma_sweep_mine(board, before, grid@, y as int, x as int);
                }
            } else {
                proof {
                    lemma_sweep_empty(board, grid@, y as int, x as int);
                }
            }
        }
        proof {
            lemma_sweep_next_row(board, grid@, y as int);
        }
    }
    proof {
        lemma_sweep_done(board, grid@);
    }
    let out = render(&grid);
    assert(out.deep_view() =~~= annotation(board));
    out
}

} // verus!
