use swim::TextEditor;

type Small = TextEditor<5, 8>;

fn row(e: &Small, r: usize) -> String {
    let mut s = String::new();
    for c in 0..5 {
        let ch = e.cell(r, c);
        if ch == '\0' {
            break;
        }
        s.push(ch);
    }
    s
}

fn rows_partitioned(e: &Small) -> bool {
    for r in 0..8 {
        let mut seen_nul = false;
        for c in 0..5 {
            let ch = e.cell(r, c);
            if ch == '\0' {
                seen_nul = true;
            } else if seen_nul {
                return false;
            }
        }
    }
    true
}

#[test]
fn new_lays_out_lines() {
    let e = Small::new("ab\ncd", true);
    assert_eq!(row(&e, 0), "ab");
    assert_eq!(row(&e, 1), "cd");
    assert_eq!(row(&e, 2), "");
    assert_eq!((e.cursor_row(), e.cursor_col(), e.target_col()), (0, 0, 0));
    assert!(e.focused);
}

#[test]
fn new_wraps_long_lines_and_drops_overflow() {
    let e = Small::new("abcdefg", false);
    assert_eq!(row(&e, 0), "abcde");
    assert_eq!(row(&e, 1), "fg");
    let many = "a\nb\nc\nd\ne\nf\ng\nh\ni\nj";
    let e = Small::new(many, false);
    assert_eq!(row(&e, 7), "h");
}

#[test]
fn new_keeps_blank_lines() {
    let e = Small::new("ab\n\ncd", true);
    assert_eq!(row(&e, 0), "ab");
    assert_eq!(row(&e, 1), "");
    assert_eq!(row(&e, 2), "cd");
}

#[test]
fn push_char_advances_and_sets_target() {
    let mut e = Small::new("", true);
    e.push_char('x');
    e.push_char('y');
    assert_eq!(row(&e, 0), "xy");
    assert_eq!((e.cursor_row(), e.cursor_col()), (0, 2));
    assert_eq!(e.target_col(), 2);
}

#[test]
fn push_char_wraps_at_row_end() {
    let mut e = Small::new("", true);
    for c in "abcde".chars() {
        e.push_char(c);
    }
    assert_eq!(row(&e, 0), "abcde");
    assert_eq!((e.cursor_row(), e.cursor_col()), (1, 0));
    assert_eq!(e.target_col(), 0);
}

#[test]
fn push_char_stays_on_last_cell() {
    let mut e = Small::new("", true);
    for _ in 0..40 {
        e.push_char('z');
    }
    assert_eq!((e.cursor_row(), e.cursor_col()), (7, 4));
    e.push_char('q');
    assert_eq!((e.cursor_row(), e.cursor_col()), (7, 4));
    assert_eq!(e.cell(7, 4), 'q');
}

#[test]
fn push_chars_keep_rows_partitioned() {
    let mut e = Small::new("ab\ncde", true);
    for c in "hello world, this is text".chars() {
        e.push_char(c);
        assert!(rows_partitioned(&e));
    }
}

#[test]
fn push_then_backspace_restores() {
    let mut e = Small::new("ab\ncd", true);
    e.move_cursor_right();
    e.move_cursor_right();
    assert_eq!((e.cursor_row(), e.cursor_col()), (0, 2));
    e.push_char('x');
    assert_eq!(row(&e, 0), "abx");
    e.backspace_char();
    assert_eq!(row(&e, 0), "ab");
    assert_eq!(row(&e, 1), "cd");
    assert_eq!((e.cursor_row(), e.cursor_col()), (0, 2));
}

#[test]
fn push_over_text_then_backspace_does_not_restore() {
    let mut e = Small::new("ab", true);
    e.push_char('x');
    e.backspace_char();
    assert_eq!(row(&e, 0), "b");
}

#[test]
fn backspace_at_origin_changes_nothing() {
    let mut e = Small::new("ab", true);
    e.backspace_char();
    assert_eq!(row(&e, 0), "ab");
    assert_eq!((e.cursor_row(), e.cursor_col()), (0, 0));
}

#[test]
fn backspace_at_row_start_goes_to_previous_row_end() {
    let mut e = Small::new("ab\ncd", true);
    e.move_cursor_down();
    assert_eq!((e.cursor_row(), e.cursor_col()), (1, 0));
    e.backspace_char();
    assert_eq!((e.cursor_row(), e.cursor_col()), (0, 2));
    assert_eq!(row(&e, 0), "ab");
    assert_eq!(row(&e, 1), "cd");
}

#[test]
fn backspace_on_full_row_removes_last_cell() {
    let mut e = Small::new("abcdefg", true);
    e.move_cursor_down();
    e.backspace_char();
    assert_eq!((e.cursor_row(), e.cursor_col()), (0, 4));
    assert_eq!(row(&e, 0), "abcd");
}

#[test]
fn delete_char_closes_gap() {
    let mut e = Small::new("abc", true);
    e.move_cursor_right();
    e.delete_char();
    assert_eq!(row(&e, 0), "ac");
    assert_eq!(e.target_col(), 1);
}

#[test]
fn delete_char_on_empty_row_removes_row() {
    let mut e = Small::new("ab\n\ncd", true);
    e.move_cursor_down();
    assert_eq!((e.cursor_row(), e.cursor_col()), (1, 0));
    e.delete_char();
    assert_eq!(row(&e, 1), "cd");
    assert_eq!(row(&e, 2), "");
    assert_eq!(row(&e, 7), "");
}

#[test]
fn shift_past_text_changes_nothing() {
    let mut e = Small::new("ab", true);
    e.move_cursor_right();
    e.move_cursor_right();
    e.shift();
    assert_eq!(row(&e, 0), "ab");
}

#[test]
fn delete_line_moves_rows_up() {
    let mut e = Small::new("a\nb\nc", true);
    e.delete_line();
    assert_eq!(row(&e, 0), "b");
    assert_eq!(row(&e, 1), "c");
    assert_eq!(row(&e, 2), "");
}

#[test]
fn newline_blanks_the_next_row() {
    let mut e = Small::new("ab\ncd", true);
    e.newline();
    assert_eq!((e.cursor_row(), e.cursor_col()), (1, 0));
    assert_eq!(row(&e, 1), "");
    assert_eq!(row(&e, 0), "ab");
}

#[test]
fn newline_on_last_row_does_nothing() {
    let mut e = Small::new("", true);
    for _ in 0..7 {
        e.newline();
    }
    assert_eq!(e.cursor_row(), 7);
    e.newline();
    assert_eq!(e.cursor_row(), 7);
}

#[test]
fn vertical_motion_keeps_target_column() {
    let mut e = Small::new("abcd\na\nabcd", true);
    e.move_cursor_right();
    e.move_cursor_right();
    e.move_cursor_right();
    assert_eq!(e.target_col(), 3);
    e.move_cursor_down();
    assert_eq!((e.cursor_row(), e.cursor_col()), (1, 1));
    assert_eq!(e.target_col(), 3);
    e.move_cursor_down();
    assert_eq!((e.cursor_row(), e.cursor_col()), (2, 3));
    e.move_cursor_up();
    e.move_cursor_up();
    assert_eq!((e.cursor_row(), e.cursor_col()), (0, 3));
    assert_eq!(e.target_col(), 3);
}

#[test]
fn move_up_at_top_and_down_at_bottom_stay() {
    let mut e = Small::new("", true);
    e.move_cursor_up();
    assert_eq!(e.cursor_row(), 0);
    for _ in 0..10 {
        e.move_cursor_down();
    }
    assert_eq!(e.cursor_row(), 7);
}

#[test]
fn move_right_from_row_end_goes_to_next_row_start() {
    let mut e = Small::new("ab\nwxyz", true);
    e.move_cursor_right();
    e.move_cursor_right();
    e.move_cursor_right();
    assert_eq!((e.cursor_row(), e.cursor_col()), (1, 0));
    assert_eq!(e.target_col(), 0);
}

#[test]
fn move_left_from_row_start_goes_to_previous_row_end() {
    let mut e = Small::new("abc\nd", true);
    e.move_cursor_down();
    e.move_cursor_left();
    assert_eq!((e.cursor_row(), e.cursor_col()), (0, 3));
    assert_eq!(e.target_col(), 3);
    e.move_cursor_left();
    assert_eq!((e.cursor_row(), e.cursor_col()), (0, 2));
}

#[test]
fn draw_window_follows_cursor() {
    let mut e = Small::new("a\nb\nc\nd", true);
    e.move_cursor_down();
    e.move_cursor_down();
    e.move_cursor_down();
    let grid = e.draw_window();
    assert_eq!(e.focus_y(), 2);
    assert_eq!(grid.len(), 2);
    assert_eq!(grid[0].len(), 5);
    assert_eq!(grid[0][0].ch, 'c');
    assert_eq!(grid[1][0].ch, 'd');
    assert!(grid[1][0].highlighted);
    assert!(!grid[0][0].highlighted);
    assert_eq!(grid[1][1].ch, ' ');
    e.move_cursor_up();
    e.move_cursor_up();
    e.move_cursor_up();
    let grid = e.draw_window();
    assert_eq!(e.focus_y(), 0);
    assert_eq!(grid[0][0].ch, 'a');
    assert!(grid[0][0].highlighted);
}

#[test]
fn unfocused_editor_shows_no_cursor() {
    let mut e = Small::new("ab", false);
    let grid = e.draw_window();
    assert!(!grid[0][0].highlighted);
    e.set_focused(true);
    let grid = e.draw_window();
    assert!(grid[0][0].highlighted);
}

#[test]
fn get_file_contents_gives_rows_as_lines() {
    let e = Small::new("ab\ncd", true);
    let text: String = e.get_file_contents().into_iter().collect();
    assert_eq!(text, "ab\ncd\n\n\n\n\n\n\n");
}

#[test]
fn get_file_contents_runs_full_rows_together() {
    let e = Small::new("abcdefg", true);
    let text: String = e.get_file_contents().into_iter().collect();
    assert_eq!(text, "abcdefg\n\n\n\n\n\n\n");
}

#[test]
fn new_skips_nul_bytes() {
    let e = Small::new("a\0b\n", true);
    assert_eq!(row(&e, 0), "ab");
    assert!(rows_partitioned(&e));
}
