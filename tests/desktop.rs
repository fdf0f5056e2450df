use swim::desktop::{Action, KeyEvent, RawKey, SwimInterface, TickStatus};
use swim::window::{WindowState, LINE_CHARS, PANE_COLS, PANE_ROWS};
use swim::SCHED_LATENCY;

fn pane_row(d: &SwimInterface, w: usize, r: usize) -> String {
    d.windows[w].pane[r].iter().collect::<String>().trim_end().to_string()
}

fn launch(d: &mut SwimInterface, live: &[bool; 4]) -> (usize, usize) {
    let f = d.focused_editor;
    let before = d.windows[f].state;
    match d.handle_unicode('r', live) {
        Action::Launch { window, file } => {
            assert_eq!(d.windows[f].state, before);
            d.run_program(window, name("prog"), live);
            assert_eq!(d.windows[window].state, WindowState::Running);
            (window, file)
        }
        other => panic!("expected a launch, got {:?}", other),
    }
}

fn name(s: &str) -> [u8; 10] {
    let mut n = [0u8; 10];
    n[..s.len()].copy_from_slice(s.as_bytes());
    n
}

#[test]
fn boot_shows_listing_with_first_window_focused() {
    let d = SwimInterface::new(4);
    assert_eq!(d.focused_editor, 0);
    assert_eq!(d.num_files, 4);
    for i in 0..4 {
        assert_eq!(d.windows[i].state, WindowState::Listing);
        assert_eq!(d.windows[i].focused_file, 0);
        assert_eq!(d.windows[i].vruntime, 0);
        assert_eq!(d.windows[i].focused, i == 0);
    }
    assert_eq!((d.windows[1].window_x, d.windows[1].window_y), (35, 1));
    assert_eq!((d.windows[2].window_x, d.windows[2].window_y), (0, 13));
    let status: String = d.status_line().into_iter().collect();
    assert_eq!(status, "F5 - Filename: ");
}

#[test]
fn run_hello_until_it_finishes() {
    let mut d = SwimInterface::new(4);
    let none = [false; 4];
    assert_eq!(launch(&mut d, &none), (0, 0));
    assert_eq!(d.windows[0].state, WindowState::Running);
    d.run_program(0, name("hello"), &none);
    let status: String = d.status_line().into_iter().collect();
    assert!(status.starts_with("Running hello"));
    let live = [true, false, false, false];
    assert_eq!(d.tick(&live), Some(0));
    d.print_to(0, b"Hello, world!\n");
    d.after_tick(0, TickStatus::Continuing);
    assert_eq!(d.tick(&live), Some(0));
    d.after_tick(0, TickStatus::Finished);
    assert_eq!(pane_row(&d, 0, 0), "Hello, world!");
    assert_eq!(d.windows[0].vruntime, 2);
    for _ in 0..50 {
        assert_eq!(d.tick(&none), None);
    }
    assert_eq!(d.windows[0].vruntime, 2);
}

#[test]
fn two_programs_share_the_processor() {
    let mut d = SwimInterface::new(4);
    launch(&mut d, &[false; 4]);
    d.handle_raw(RawKey::F2);
    assert_eq!(d.focused_editor, 1);
    assert!(d.windows[1].focused);
    assert!(!d.windows[0].focused);
    let live = [true, false, false, false];
    assert_eq!(launch(&mut d, &live), (1, 0));
    assert_eq!(d.windows[1].vruntime, d.windows[0].vruntime);
    let mut left = [3usize, 3usize];
    let mut ticks = 0;
    while left[0] + left[1] > 0 && ticks < 200 {
        let live = [left[0] > 0, left[1] > 0, false, false];
        if let Some(w) = d.tick(&live) {
            left[w] -= 1;
        }
        ticks += 1;
    }
    assert_eq!(left, [0, 0]);
    assert!(d.windows[0].vruntime <= SCHED_LATENCY + 1);
    assert!(d.windows[1].vruntime <= SCHED_LATENCY + 1);
}

#[test]
fn input_line_goes_to_waiting_program() {
    let mut d = SwimInterface::new(4);
    d.handle_raw(RawKey::ArrowRight);
    d.handle_raw(RawKey::ArrowRight);
    assert_eq!(d.windows[0].focused_file, 2);
    launch(&mut d, &[false; 4]);
    d.run_program(0, name("average"), &[false; 4]);
    let live = [true, false, false, false];
    assert_eq!(d.tick(&live), Some(0));
    d.print_to(0, b"Enter a number:\n");
    d.after_tick(0, TickStatus::AwaitInput);
    assert!(d.windows[0].taking_input);
    let status: String = d.status_line().into_iter().collect();
    assert_eq!(status, "Awaiting Input    ");
    let blocked = [false; 4];
    for line in ["5", "7", "quit"] {
        for c in line.chars() {
            assert!(matches!(d.handle_unicode(c, &blocked), Action::Nothing));
        }
        let input: String = d.windows[0].input_line().into_iter().collect();
        assert_eq!(input.trim_end(), line);
        match d.handle_unicode('\n', &blocked) {
            Action::ProvideInput { window, text } => {
                assert_eq!(window, 0);
                assert_eq!(text.into_iter().collect::<String>(), line);
            }
            other => panic!("expected input, got {:?}", other),
        }
        assert!(!d.windows[0].taking_input);
        assert_eq!(d.windows[0].vruntime, 0);
        d.after_tick(0, TickStatus::AwaitInput);
    }
    d.print_to(0, b"6\n");
    assert!(pane_row(&d, 0, 0).starts_with("Enter a number:"));
    let last = d.windows[0].interpreter_print_loc - 1;
    assert_eq!(pane_row(&d, 0, last), "6");
}

#[test]
fn enter_restarts_vruntime_at_runnable_minimum() {
    let mut d = SwimInterface::new(4);
    launch(&mut d, &[false; 4]);
    d.handle_raw(RawKey::F2);
    launch(&mut d, &[true, false, false, false]);
    let live = [true, true, false, false];
    for _ in 0..30 {
        d.tick(&live);
    }
    d.after_tick(1, TickStatus::AwaitInput);
    let only0 = [true, false, false, false];
    for _ in 0..40 {
        assert_eq!(d.tick(&only0), Some(0));
    }
    let least = d.windows[0].vruntime;
    d.handle_unicode('4', &only0);
    d.handle_unicode('\n', &only0);
    assert_eq!(d.windows[1].vruntime, least);
}

#[test]
fn input_backspace_and_capacity() {
    let mut d = SwimInterface::new(4);
    launch(&mut d, &[false; 4]);
    d.after_tick(0, TickStatus::AwaitInput);
    let none = [false; 4];
    for c in "abcdefghijkl".chars() {
        d.handle_unicode(c, &none);
    }
    assert_eq!(d.windows[0].input_buffer.iter().collect::<String>(), "abcdefghij");
    d.handle_unicode('\u{8}', &none);
    assert_eq!(d.windows[0].input_buffer.iter().collect::<String>(), "abcdefghi");
    d.handle_unicode('\u{1}', &none);
    assert_eq!(d.windows[0].input_buffer.len(), 9);
}

#[test]
fn keys_are_ignored_by_a_program_not_waiting() {
    let mut d = SwimInterface::new(4);
    launch(&mut d, &[false; 4]);
    assert!(matches!(d.handle_unicode('x', &[true, false, false, false]), Action::Nothing));
    assert_eq!(d.windows[0].input_buffer.len(), 0);
}

#[test]
fn f6_returns_running_window_to_listing() {
    let mut d = SwimInterface::new(4);
    launch(&mut d, &[false; 4]);
    d.handle_raw(RawKey::F3);
    launch(&mut d, &[true, false, false, false]);
    d.print_to(2, b"3.14\n");
    let live = [true, false, true, false];
    for _ in 0..10 {
        d.tick(&live);
    }
    let before0 = d.windows[0].vruntime;
    match d.handle_raw(RawKey::F6) {
        Action::Stop { window } => assert_eq!(window, 2),
        other => panic!("expected a stop, got {:?}", other),
    }
    let w = &d.windows[2];
    assert_eq!(w.state, WindowState::Listing);
    assert_eq!(w.vruntime, 0);
    assert_eq!(w.interpreter_print_loc, 0);
    for r in 0..PANE_ROWS {
        assert_eq!(pane_row(&d, 2, r), "");
    }
    assert_eq!(d.windows[0].state, WindowState::Running);
    assert_eq!(d.windows[0].vruntime, before0);
}

#[test]
fn listing_arrows_cycle_through_files() {
    let mut d = SwimInterface::new(4);
    d.handle_raw(RawKey::ArrowLeft);
    assert_eq!(d.windows[0].focused_file, 3);
    d.handle_raw(RawKey::ArrowRight);
    assert_eq!(d.windows[0].focused_file, 0);
    for _ in 0..5 {
        d.handle_raw(RawKey::ArrowRight);
    }
    assert_eq!(d.windows[0].focused_file, 1);
    let mut empty = SwimInterface::new(0);
    empty.handle_raw(RawKey::ArrowRight);
    assert_eq!(empty.windows[0].focused_file, 0);
}

#[test]
fn new_file_entry() {
    let mut d = SwimInterface::new(4);
    d.handle_raw(RawKey::F5);
    assert!(d.creating_file);
    for c in "notes!".chars() {
        d.handle_unicode(c, &[false; 4]);
    }
    d.handle_unicode('\u{8}', &[false; 4]);
    let status: String = d.status_line().into_iter().collect();
    assert_eq!(status, "F5 - Filename: notes");
    match d.handle_unicode('\n', &[false; 4]) {
        Action::CreateFile { name } => assert_eq!(name, b"notes".to_vec()),
        other => panic!("expected a new file, got {:?}", other),
    }
    assert!(!d.creating_file);
    d.set_num_files(5);
    assert_eq!(d.num_files, 5);
    d.handle_raw(RawKey::F5);
    d.handle_unicode('x', &[false; 4]);
    d.handle_raw(RawKey::Escape);
    assert!(!d.creating_file);
    assert_eq!(d.filename_input.len(), 0);
}

#[test]
fn edit_a_file_and_save_it() {
    let mut d = SwimInterface::new(4);
    match d.handle_unicode('e', &[false; 4]) {
        Action::Edit { window, file } => assert_eq!((window, file), (0, 0)),
        other => panic!("expected an edit, got {:?}", other),
    }
    d.open_editor(0, name("hello"), "hi\nthere");
    assert_eq!(d.windows[0].state, WindowState::Editing);
    let status: String = d.status_line().into_iter().collect();
    assert!(status.starts_with("Editing hello"));
    d.handle_raw(RawKey::ArrowDown);
    d.handle_raw(RawKey::ArrowRight);
    d.handle_unicode('X', &[false; 4]);
    d.handle_unicode('\u{7f}', &[false; 4]);
    match d.handle_raw(RawKey::F6) {
        Action::Save { window, contents } => {
            assert_eq!(window, 0);
            let text: String = contents.into_iter().collect();
            assert!(text.starts_with("hi\ntXre\n"));
        }
        other => panic!("expected a save, got {:?}", other),
    }
    assert_eq!(d.windows[0].state, WindowState::Listing);
    assert!(d.windows[0].editor.is_none());
}

#[test]
fn print_wraps_long_lines() {
    let mut d = SwimInterface::new(4);
    let line: Vec<u8> = (0..40u8).map(|i| b'a' + (i % 26)).chain(std::iter::once(b'\n')).collect();
    d.print_to(0, &line);
    let first: String = line[..LINE_CHARS].iter().map(|b| *b as char).collect();
    let rest: String = line[LINE_CHARS..40].iter().map(|b| *b as char).collect();
    assert_eq!(pane_row(&d, 0, 0), first);
    assert_eq!(pane_row(&d, 0, 1), rest);
    assert_eq!(d.windows[0].interpreter_print_loc, 2);
    assert_eq!(d.windows[0].pane[0].len(), PANE_COLS);
}

#[test]
fn print_scrolls_when_pane_is_full() {
    let mut d = SwimInterface::new(4);
    for k in 1..=13usize {
        let line = format!("line {}\n", k);
        d.print_to(0, line.as_bytes());
        let shown = k.min(PANE_ROWS);
        assert_eq!(d.windows[0].interpreter_print_loc, shown);
        assert_eq!(pane_row(&d, 0, shown - 1), format!("line {}", k));
    }
    for r in 0..PANE_ROWS {
        assert_eq!(pane_row(&d, 0, r), format!("line {}", r + 4));
    }
}

#[test]
fn empty_print_changes_nothing() {
    let mut d = SwimInterface::new(4);
    d.print_to(0, b"");
    assert_eq!(d.windows[0].interpreter_print_loc, 0);
}

#[test]
fn listing_positions() {
    let d = SwimInterface::new(4);
    assert_eq!(d.windows[1].listed_file(4), (35 + 1 + 10, 1 + 1 + 1, false));
    assert_eq!(d.windows[2].listed_file(0), (1, 14, true));
    let mut d = d;
    d.handle_raw(RawKey::ArrowRight);
    assert_eq!(d.windows[0].listed_file(1), (11, 2, true));
    assert_eq!(d.windows[0].listed_file(0), (1, 2, false));
}

#[test]
fn key_routes_both_kinds() {
    let mut d = SwimInterface::new(4);
    d.key(KeyEvent::RawKey(RawKey::F4), &[false; 4]);
    assert_eq!(d.focused_editor, 3);
    assert!(matches!(d.key(KeyEvent::Unicode('r'), &[false; 4]), Action::Launch { window: 3, file: 0 }));
}

#[test]
fn failed_launch_keeps_listing() {
    let mut d = SwimInterface::new(4);
    match d.handle_unicode('r', &[false; 4]) {
        Action::Launch { window, .. } => {
            d.print_to(window, b"filesystem error\n");
            assert_eq!(d.windows[window].state, WindowState::Listing);
            assert_eq!(pane_row(&d, window, 0), "filesystem error");
        }
        other => panic!("expected a launch, got {:?}", other),
    }
}

#[test]
fn one_byte_lines_are_shown() {
    let mut d = SwimInterface::new(4);
    d.print_to(0, b"a");
    d.print_to(0, b"b\n");
    assert_eq!(pane_row(&d, 0, 0), "a");
    assert_eq!(pane_row(&d, 0, 1), "b");
    d.print_to(0, b"\n");
    assert_eq!(d.windows[0].interpreter_print_loc, 3);
}

#[test]
fn chunk_one_past_a_row_wraps_its_last_byte() {
    let mut d = SwimInterface::new(4);
    let chunk: Vec<u8> = (0..(LINE_CHARS + 1) as u8).map(|i| b'a' + (i % 26)).collect();
    d.print_to(0, &chunk);
    assert_eq!(d.windows[0].interpreter_print_loc, 2);
    assert_eq!(pane_row(&d, 0, 1), ((b'a' + (LINE_CHARS as u8 % 26)) as char).to_string());
}

#[test]
fn focus_change_abandons_file_name() {
    let mut d = SwimInterface::new(4);
    d.handle_raw(RawKey::F5);
    d.handle_unicode('x', &[false; 4]);
    d.handle_raw(RawKey::F2);
    assert!(!d.creating_file);
    assert_eq!(d.filename_input.len(), 0);
    assert!(d.windows[1].focused);
    assert!(!d.windows[0].focused);
}

#[test]
fn editor_opened_in_focused_window_shows_cursor() {
    let mut d = SwimInterface::new(4);
    d.open_editor(0, name("nums"), "print(1)\n");
    let e = d.windows[0].editor.as_ref().unwrap();
    assert!(e.focused);
    assert_eq!((e.cursor_row(), e.cursor_col(), e.target_col(), e.focus_y()), (0, 0, 0, 0));
}

#[test]
fn full_row_then_line_feed_takes_two_rows() {
    let mut d = SwimInterface::new(4);
    let mut chunk: Vec<u8> = (0..LINE_CHARS as u8).map(|i| b'a' + (i % 26)).collect();
    chunk.push(b'\n');
    d.print_to(0, &chunk);
    assert_eq!(d.windows[0].interpreter_print_loc, 2);
    assert_eq!(pane_row(&d, 0, 1), "");
    d.print_to(0, b"ab\n");
    assert_eq!(d.windows[0].interpreter_print_loc, 3);
    assert_eq!(pane_row(&d, 0, 2), "ab");
}
