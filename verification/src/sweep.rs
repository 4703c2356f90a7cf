//! The pass over the mines of a board. It works on a grid of bytes, one for
//! each cell, that starts out blank: each mine is written into its own cell
//! and raises the count in the cells around it.

use vstd::prelude::*;
use crate::board::{annotated_cell, has_mine, in_bounds, is_rectangular, BLANK, MINE, ZERO};
use crate::render::{glyph_of, is_glyph};

verus! {

/// The eight steps from a cell to the cells around it: the change of the
/// column in `DX`, the change of the row, at the same index, in `DY`.
pub const DX: [i32; 8] = [-1, 0, 1, 1, 1, 0, -1, -1];

pub const DY: [i32; 8] = [1, 1, 1, 0, -1, -1, -1, 0];

/// The index in `DX` and `DY` of the step that changes the row by `dy` and the
/// column by `dx`; 8 where no step does.
pub open spec fn direction(dy: int, dx: int) -> int {
    if dy == 1 && dx == -1 {
        0
    } else if dy == 1 && dx == 0 {
        1
    } else if dy == 1 && dx == 1 {
        2
    } else if dy == 0 && dx == 1 {
        3
    } else if dy == -1 && dx == 1 {
        4
    } else if dy == -1 && dx == 0 {
        5
    } else if dy == -1 && dx == -1 {
        6
    } else if dy == 0 && dx == -1 {
        7
    } else {
        8
    }
}

/// Two different positions that share an edge or a corner.
pub open spec fn adjacent(r: int, c: int, y: int, x: int) -> bool {
    -1 <= r - y <= 1 && -1 <= c - x <= 1 && !(r == y && c == x)
}

/// `direction` is the inverse of the table, and it tells the adjacent
/// positions from all others.
pub(crate) proof fn lemma_direction()
    ensures
        forall|i: int| 0 <= i < 8 ==> direction(#[trigger] DY[i] as int, DX[i] as int) == i,
        forall|r: int, c: int, y: int, x: int|
            adjacent(r, c, y, x) <==> 0 <= #[trigger] direction(r - y, c - x) < 8,
{
}

/// The byte of a cell after one more mine was found next to it: the count
/// goes up by one, and a mine stays a mine.
pub open spec fn bumped(cell: u8) -> u8 {
    if cell == BLANK {
        (ZERO + 1) as u8
    } else if cell == MINE {
        MINE
    } else {
        (cell + 1) as u8
    }
}

/// All rows of the grid have `width` cells.
pub open spec fn has_width(grid: Seq<Vec<u8>>, width: int) -> bool {
    forall|r: int| 0 <= r < grid.len() ==> (#[trigger] grid[r])@.len() == width
}

/// Writes the mine of row `y`, column `x` into the grid and raises the count
/// in each of the cells around it that lies on the grid and holds no mine.
pub(crate) fn mark_mine(grid: &mut Vec<Vec<u8>>, y: usize, x: usize, height: usize, width: usize)
    requires
        old(grid)@.len() == height,
        has_width(old(grid)@, width as int),
        y < height,
        x < width,
        forall|r: int, c: int|
            0 <= r < height && 0 <= c < width ==> #[trigger] old(grid)@[r]@[c] < u8::MAX,
    ensures
        final(grid)@.len() == height,
        has_width(final(grid)@, width as int),
        forall|r: int, c: int|
            0 <= r < height && 0 <= c < width ==> #[trigger] final(grid)@[r]@[c] == (if r == y
                && c == x {
                MINE
            } else if adjacent(r, c, y as int, x as int) {
                bumped(old(grid)@[r]@[c])
            } else {
                old(grid)@[r]@[c]
            }),
{
    let ghost before = grid@;
    grid[y][x] = MINE;
    for i in 0..8usize
        invariant
            y < height,
            x < width,
            grid@.len() == height,
            before.len() == height,
            has_width(grid@, width as int),
            has_width(before, width as int),
            forall|r: int, c: int|
                0 <= r < height && 0 <= c < width ==> #[trigger] before[r]@[c] < u8::MAX,
            forall|r: int, c: int|
                0 <= r < height && 0 <= c < width ==> #[trigger] grid@[r]@[c] == (if r == y && c
                    == x {
                    MINE
                } else if direction(r - y, c - x) < i {
                    bumped(before[r]@[c])
                } else {
                    before[r]@[c]
                }),
    {
        proof {
            lemma_direction();
        }
        if let (Some(new_x), Some(new_y)) = (
            x.checked_add_signed(DX[i] as isize),
            y.checked_add_signed(DY[i] as isize),
        ) {
            if new_x < width && new_y < height {
                let cur = &mut grid[new_y][new_x];
                if *cur == BLANK {
                    *cur = ZERO + 1;
                } else if *cur != MINE {
                    *cur += 1;
                }
            }
        }
    }
    proof {
        lemma_direction();
    }
}

/// Row `r`, column `c` comes before row `y`, column `x` in reading order: the
/// pass reaches it earlier.
pub open spec fn precedes(r: int, c: int, y: int, x: int) -> bool {
    r < y || (r == y && c < x)
}

/// 1 where row `r`, column `c` holds a mine that comes before row `y`,
/// column `x`, else 0.
pub open spec fn swept_at(board: Seq<Seq<u8>>, r: int, c: int, y: int, x: int) -> int {
    if has_mine(board, r, c) && precedes(r, c, y, x) {
        1
    } else {
        0
    }
}

/// The number of mines around row `r`, column `c` that come before row `y`,
/// column `x`.
pub open spec fn swept_around(board: Seq<Seq<u8>>, r: int, c: int, y: int, x: int) -> int {
    swept_at(board, r - 1, c - 1, y, x) + swept_at(board, r - 1, c, y, x) + swept_at(
        board,
        r - 1,
        c + 1,
        y,
        x,
    ) + swept_at(board, r, c - 1, y, x) + swept_at(board, r, c + 1, y, x) + swept_at(
        board,
        r + 1,
        c - 1,
        y,
        x,
    ) + swept_at(board, r + 1, c, y, x) + swept_at(board, r + 1, c + 1, y, x)
}

/// The byte for a count of mines: blank for none, else the digit.
pub open spec fn count_byte(n: int) -> u8 {
    if n == 0 {
        BLANK
    } else {
        (ZERO + n) as u8
    }
}

/// What the grid holds at row `r`, column `c` when the pass stands at row `y`,
/// column `x`: the mine, if the cell holds one and the pass has reached it,
/// else the count of the mines around the cell that the pass has reached.
pub open spec fn swept_cell(board: Seq<Seq<u8>>, r: int, c: int, y: int, x: int) -> u8 {
    if has_mine(board, r, c) && precedes(r, c, y, x) {
        MINE
    } else {
        count_byte(swept_around(board, r, c, y, x))
    }
}

/// The grid has the shape of the board, and holds at every position what the
/// pass has found when it stands at row `y`, column `x`.
pub open spec fn swept_to(board: Seq<Seq<u8>>, grid: Seq<Vec<u8>>, y: int, x: int) -> bool {
    &&& grid.len() == board.len()
    &&& forall|r: int| 0 <= r < board.len() ==> (#[trigger] grid[r])@.len() == board[r].len()
    &&& forall|r: int, c: int|
        in_bounds(board, r, c) ==> #[trigger] grid[r]@[c] == swept_cell(board, r, c, y, x)
}

/// A blank grid is what the pass has found before its first step.
pub(crate) proof fn lemma_sweep_start(board: Seq<Seq<u8>>, grid: Seq<Vec<u8>>)
    requires
        grid.len() == board.len(),
        forall|r: int| 0 <= r < board.len() ==> (#[trigger] grid[r])@.len() == board[r].len(),
        forall|r: int, c: int| in_bounds(board, r, c) ==> #[trigger] grid[r]@[c] == BLANK,
    ensures
        swept_to(board, grid, 0, 0),
{
}

/// At the end of a row the pass stands at the start of the next one.
pub(crate) proof fn lemma_sweep_next_row(board: Seq<Seq<u8>>, grid: Seq<Vec<u8>>, y: int)
    requires
        is_rectangular(board),
        0 <= y < board.len(),
        swept_to(board, grid, y, board[0].len() as int),
    ensures
        swept_to(board, grid, y + 1, 0),
{
}

/// A step over an empty cell changes nothing.
pub(crate) proof fn lemma_sweep_empty(board: Seq<Seq<u8>>, grid: Seq<Vec<u8>>, y: int, x: int)
    requires
        in_bounds(board, y, x),
        board[y][x] != MINE,
        swept_to(board, grid, y, x),
    ensures
        swept_to(board, grid, y, x + 1),
{
}

/// Before the pass reaches a mine, every cell of the grid holds a blank or a
/// digit below `8`, or a mine: none is at the top of its range.
pub(crate) proof fn lemma_sweep_room(board: Seq<Seq<u8>>, grid: Seq<Vec<u8>>, y: int, x: int)
    requires
        swept_to(board, grid, y, x),
    ensures
        forall|r: int, c: int| in_bounds(board, r, c) ==> #[trigger] grid[r]@[c] < u8::MAX,
{
}

/// A step over a mine: the grid in which the mine was marked is what the
/// pass has found when it stands behind the mine.
pub(crate) proof fn lemma_sweep_mine(
    board: Seq<Seq<u8>>,
    before: Seq<Vec<u8>>,
    after: Seq<Vec<u8>>,
    y: int,
    x: int,
)
    requires
        has_mine(board, y, x),
        swept_to(board, before, y, x),
        after.len() == before.len(),
        forall|r: int| 0 <= r < board.len() ==> (#[trigger] after[r])@.len() == board[r].len(),
        forall|r: int, c: int|
            in_bounds(board, r, c) ==> #[trigger] after[r]@[c] == (if r == y && c == x {
                MINE
            } else if adjacent(r, c, y, x) {
                bumped(before[r]@[c])
            } else {
                before[r]@[c]
            }),
    ensures
        swept_to(board, after, y, x + 1),
{
}

/// When the pass has left the last row, the grid holds the annotation.
pub(crate) proof fn lemma_sweep_done(board: Seq<Seq<u8>>, grid: Seq<Vec<u8>>)
    requires
        swept_to(board, grid, board.len() as int, 0),
    ensures
        forall|r: int, c: int|
            in_bounds(board, r, c) ==> is_glyph(#[trigger] grid[r]@[c]) && glyph_of(grid[r]@[c])
                == annotated_cell(board, r, c),
{
}

} // verus!
