use minesweeper::board::{BLANK, MINE, ZERO};
use minesweeper::{annotate, remove_annotations, remove_annotations_in_row};

fn owned(rows: &[&str]) -> Vec<String> {
    rows.iter().map(|r| r.to_string()).collect()
}

fn borrowed(rows: &[String]) -> Vec<&str> {
    rows.iter().map(|r| r.as_str()).collect()
}

/// The number of mines around row `y`, column `x`, counted cell by cell.
fn mines_around(board: &[&str], y: usize, x: usize) -> usize {
    let mut n = 0;
    for r in y.saturating_sub(1)..=y + 1 {
        for c in x.saturating_sub(1)..=x + 1 {
            if (r, c) != (y, x) && r < board.len() && c < board[r].len() {
                if board[r].as_bytes()[c] == b'*' {
                    n += 1;
                }
            }
        }
    }
    n
}

/// A board of the given size whose mines are spread by a fixed rule.
fn scattered(height: usize, width: usize, seed: u32) -> Vec<String> {
    let mut state = seed;
    let mut rows = Vec::new();
    for _ in 0..height {
        let mut row = String::new();
        for _ in 0..width {
            state = state.wrapping_mul(1664525).wrapping_add(1013904223);
            row.push(if (state >> 24) % 3 == 0 { '*' } else { ' ' });
        }
        rows.push(row);
    }
    rows
}

#[test]
fn marker_bytes() {
    assert_eq!(MINE, b'*');
    assert_eq!(BLANK, b' ');
    assert_eq!(ZERO, b'0');
}

#[test]
fn empty_board_stays_empty() {
    assert_eq!(annotate(&[]), Vec::<String>::new());
}

#[test]
fn zero_width_row_stays_zero_width() {
    assert_eq!(annotate(&[""]), owned(&[""]));
}

#[test]
fn several_zero_width_rows() {
    assert_eq!(annotate(&["", "", ""]), owned(&["", "", ""]));
}

#[test]
fn single_mine_alone() {
    assert_eq!(annotate(&["*"]), owned(&["*"]));
}

#[test]
fn single_empty_cell_alone() {
    assert_eq!(annotate(&[" "]), owned(&[" "]));
}

#[test]
fn blank_board_unchanged() {
    assert_eq!(annotate(&["   ", "   ", "   "]), owned(&["   ", "   ", "   "]));
}

#[test]
fn mine_in_the_middle() {
    assert_eq!(annotate(&["   ", " * ", "   "]), owned(&["111", "1*1", "111"]));
}

#[test]
fn all_mines_unchanged() {
    assert_eq!(annotate(&["***", "***", "***"]), owned(&["***", "***", "***"]));
}

#[test]
fn eight_mines_around_one_cell() {
    assert_eq!(annotate(&["***", "* *", "***"]), owned(&["***", "*8*", "***"]));
}

#[test]
fn strip_with_mines_at_both_ends() {
    assert_eq!(annotate(&["*   *"]), owned(&["*1 1*"]));
}

#[test]
fn plus_shape_of_mines() {
    assert_eq!(
        annotate(&["  *  ", "  *  ", "*****", "  *  ", "  *  "]),
        owned(&[" 2*2 ", "25*52", "*****", "25*52", " 2*2 "])
    );
}

#[test]
fn mine_in_a_corner() {
    assert_eq!(annotate(&["*  ", "   ", "   "]), owned(&["*1 ", "11 ", "   "]));
    assert_eq!(annotate(&["   ", "   ", "  *"]), owned(&["   ", " 11", " 1*"]));
}

#[test]
fn mine_on_an_edge() {
    assert_eq!(annotate(&[" * ", "   ", "   "]), owned(&["1*1", "111", "   "]));
    assert_eq!(annotate(&["   ", "*  ", "   "]), owned(&["11 ", "*1 ", "11 "]));
}

#[test]
fn counts_do_not_wrap_around_the_edges() {
    assert_eq!(annotate(&["*   ", "    ", "   *"]), owned(&["*1  ", "1111", "  1*"]));
    assert_eq!(annotate(&["*  ", "  *"]), owned(&["*21", "12*"]));
}

#[test]
fn every_count_from_one_to_eight() {
    let around = [(0, 0), (0, 1), (0, 2), (1, 0), (1, 2), (2, 0), (2, 1), (2, 2)];
    let digits = ['1', '2', '3', '4', '5', '6', '7', '8'];
    for k in 1..=8 {
        let mut grid = [[' '; 3]; 3];
        for &(y, x) in &around[..k] {
            grid[y][x] = '*';
        }
        let rows: Vec<String> = grid.iter().map(|r| r.iter().collect()).collect();
        let out = annotate(&borrowed(&rows));
        assert_eq!(out[1].chars().nth(1), Some(digits[k - 1]));
    }
}

#[test]
fn counts_on_a_board_of_two_rows() {
    assert_eq!(annotate(&["** *", "    "]), owned(&["**2*", "2221"]));
}

#[test]
fn other_characters_are_empty_cells() {
    assert_eq!(annotate(&["a*b"]), owned(&["1*1"]));
    assert_eq!(annotate(&["1*2*1"]), owned(&["1*2*1"]));
    assert_eq!(annotate(&["9 9", " * ", "x.x"]), owned(&["111", "1*1", "111"]));
}

#[test]
fn annotated_board_is_annotated_the_same() {
    assert_eq!(
        annotate(&[" 2*2 ", "25*52", "*****", "25*52", " 2*2 "]),
        owned(&[" 2*2 ", "25*52", "*****", "25*52", " 2*2 "])
    );
}

#[test]
fn a_character_outside_ascii_is_one_cell_for_each_byte() {
    assert_eq!(annotate(&["\u{e9}*"]), owned(&[" 1*"]));
    assert_eq!(annotate(&["*\u{20ac}", "    "]), owned(&["*1  ", "11  "]));
}

#[test]
fn input_is_left_as_it_was() {
    let rows = vec!["* ", "  "];
    let kept = rows.clone();
    let _ = annotate(&rows);
    assert_eq!(rows, kept);
}

#[test]
fn shape_is_kept() {
    for (height, width) in [(0, 0), (1, 0), (4, 0), (1, 1), (1, 9), (9, 1), (5, 7), (12, 12)] {
        let rows = scattered(height, width, 7 + height as u32 * 31 + width as u32);
        let out = annotate(&borrowed(&rows));
        assert_eq!(out.len(), height);
        for row in &out {
            assert_eq!(row.len(), width);
            assert_eq!(row.chars().count(), width);
        }
    }
}

#[test]
fn mines_are_kept() {
    let rows = scattered(9, 11, 12345);
    let board = borrowed(&rows);
    let out = annotate(&board);
    let mut mines = 0;
    for y in 0..9 {
        for x in 0..11 {
            let was_mine = board[y].as_bytes()[x] == b'*';
            let is_mine = out[y].as_bytes()[x] == b'*';
            assert_eq!(was_mine, is_mine);
            if was_mine {
                mines += 1;
            }
        }
    }
    assert!(mines > 0);
}

#[test]
fn empty_cells_show_the_count_of_their_neighbours() {
    for seed in [1, 2, 3, 99] {
        let rows = scattered(8, 10, seed);
        let board = borrowed(&rows);
        let out = annotate(&board);
        for y in 0..8 {
            for x in 0..10 {
                if board[y].as_bytes()[x] != b'*' {
                    let n = mines_around(&board, y, x);
                    let shown = out[y].as_bytes()[x];
                    if n == 0 {
                        assert_eq!(shown, b' ');
                    } else {
                        assert_eq!(shown, b'0' + n as u8);
                    }
                }
            }
        }
    }
}

#[test]
fn only_mines_blanks_and_digits_come_out() {
    let rows = scattered(10, 10, 2024);
    for row in annotate(&borrowed(&rows)) {
        for ch in row.chars() {
            assert!(ch == '*' || ch == ' ' || ('1'..='8').contains(&ch));
        }
    }
}

#[test]
fn strip_and_annotate_gives_the_annotation_back() {
    for seed in [5, 6, 7] {
        let rows = scattered(7, 9, seed);
        let first = annotate(&borrowed(&rows));
        let cleaned = remove_annotations(&borrowed(&first));
        assert_eq!(cleaned, rows);
        let second = annotate(&borrowed(&cleaned));
        assert_eq!(second, first);
    }
}

#[test]
fn annotate_twice_gives_the_same() {
    let rows = scattered(6, 6, 42);
    let first = annotate(&borrowed(&rows));
    let second = annotate(&borrowed(&first));
    assert_eq!(second, first);
}

#[test]
fn remove_annotations_in_row_keeps_mines_only() {
    assert_eq!(remove_annotations_in_row(""), "");
    assert_eq!(remove_annotations_in_row("1*2*1"), " * * ");
    assert_eq!(remove_annotations_in_row("*****"), "*****");
    assert_eq!(remove_annotations_in_row("12345678"), "        ");
    assert_eq!(remove_annotations_in_row(" x*y "), "  *  ");
}

#[test]
fn remove_annotations_in_row_goes_by_characters() {
    assert_eq!(remove_annotations_in_row("\u{e9}*\u{20ac}"), " * ");
}

#[test]
fn remove_annotations_row_by_row() {
    assert_eq!(remove_annotations(&[]), Vec::<String>::new());
    assert_eq!(remove_annotations(&[""]), owned(&[""]));
    assert_eq!(
        remove_annotations(&["111", "1*1", "111"]),
        owned(&["   ", " * ", "   "])
    );
    assert_eq!(remove_annotations(&["*1", "", "2*2"]), owned(&["* ", "", " * "]));
}
