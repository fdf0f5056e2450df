//! One of the four windows: its mode, its program's output pane and the
//! keyboard input it captures for a program that waits.
//!
//! The pane is the window's interior as text, `PANE_ROWS` rows of
//! `PANE_COLS` cells; the host draws row `i`, column `c` at
//! `(window_x + 1 + c, window_y + 1 + i)`. Program output goes one line per
//! row at `interpreter_print_loc`, and the pane scrolls up when it is full.
use vstd::prelude::*;
use crate::buffer::{EditorView, TextEditor};
use crate::glyph::{drawable, is_drawable};
use crate::{DOCUMENT_LENGTH, MAX_FILENAME_BYTES, WIN_WIDTH};

verus! {

/// Rows of program output that a window shows.
pub const PANE_ROWS: usize = 10;

/// Cells in a row of the window interior.
pub const PANE_COLS: usize = WIN_WIDTH - 1;

/// Characters of program output written on one row.
pub const LINE_CHARS: usize = WIN_WIDTH - 2;

/// Characters of keyboard input held for a waiting program.
pub const INPUT_CAPACITY: usize = 10;

/// The three modes of a window.
#[derive(Clone, Copy, Debug, PartialEq, Eq, Structural)]
pub enum WindowState {
    Editing,
    Running,
    Listing,
}

/// A row of the interior with nothing on it.
pub open spec fn blank_line() -> Seq<char> {
    Seq::new(PANE_COLS as nat, |i: int| ' ')
}

/// The pane moved up one row, with a blank row at the bottom.
pub open spec fn scrolled(p: Seq<Seq<char>>) -> Seq<Seq<char>> {
    Seq::new(PANE_ROWS as nat, |i: int| if i < PANE_ROWS - 1 { p[i + 1] } else { blank_line() })
}

/// The pane with `text` written from the start of row `row`; the rest of
/// the row keeps what it had.
pub open spec fn written(p: Seq<Seq<char>>, row: int, text: Seq<char>) -> Seq<Seq<char>> {
    p.update(row, Seq::new(PANE_COLS as nat, |c: int| if c < text.len() { text[c] } else { p[row][c] }))
}

/// Bytes of program output as the characters drawn for them.
pub open spec fn as_chars(b: Seq<u8>) -> Seq<char> {
    b.map_values(|x: u8| x as char)
}

/// The pane and the output row together.
pub struct Output {
    pub pane: Seq<Seq<char>>,
    pub loc: int,
}

/// What is drawn of the last row-sized piece of a chunk of program output:
/// the piece without its final line feed, if it ends with one.
pub open spec fn line_of(chars: Seq<u8>) -> Seq<u8> {
    if chars.len() > 0 && chars.last() == 10 {
        chars.drop_last()
    } else {
        chars
    }
}

/// The output after `chunk` is put on the pane: a full pane first scrolls
/// up one row; a chunk longer than `LINE_CHARS` puts its first `LINE_CHARS`
/// bytes on the output row, moves the output row down one and goes on with
/// the rest; a shorter piece (the last one) puts its text (see `line_of`:
/// a final line feed is not drawn) on the output row and moves it down one.
pub open spec fn put_rows(o: Output, chunk: Seq<u8>) -> Output
    decreases chunk.len(),
{
    let o1 = if o.loc == PANE_ROWS {
        Output { pane: scrolled(o.pane), loc: o.loc - 1 }
    } else {
        o
    };
    if chunk.len() > LINE_CHARS {
        let o2 = Output {
            pane: written(o1.pane, o1.loc, as_chars(chunk.take(LINE_CHARS as int))),
            loc: o1.loc + 1,
        };
        put_rows(o2, chunk.skip(LINE_CHARS as int))
    } else {
        Output { pane: written(o1.pane, o1.loc, as_chars(line_of(chunk))), loc: o1.loc + 1 }
    }
}

/// The output after a chunk is printed as one line: an empty chunk changes
/// nothing; otherwise the chunk is put on the pane in pieces of
/// `LINE_CHARS` bytes, one row each (see `put_rows`).
pub open spec fn printed(o: Output, chars: Seq<u8>) -> Output {
    if chars.len() == 0 {
        o
    } else {
        put_rows(o, chars)
    }
}

/// A window and what it holds.
pub struct Window {
    /// The document being edited, in `Editing` mode.
    pub editor: Option<TextEditor<WIN_WIDTH, DOCUMENT_LENGTH>>,
    /// The pane row where the next line of program output goes.
    pub interpreter_print_loc: usize,
    /// Name of the file being edited or run.
    pub current_file: [u8; 10],
    pub state: WindowState,
    /// Screen column of the window's left border.
    pub window_x: usize,
    /// Screen row of the window's top border.
    pub window_y: usize,
    /// Whether the window receives the keyboard.
    pub focused: bool,
    /// Index of the highlighted file in the listing.
    pub focused_file: usize,
    /// Ticks that the window's program has run (the scheduler's key).
    pub vruntime: usize,
    /// Whether the program waits for a line of input.
    pub taking_input: bool,
    /// The input typed so far for the waiting program.
    pub input_buffer: Vec<char>,
    /// The interior as text.
    pub pane: Vec<Vec<char>>,
}

impl Window {
    pub open spec fn pane_view(&self) -> Seq<Seq<char>> {
        self.pane@.map_values(|r: Vec<char>| r@)
    }

    pub open spec fn output(&self) -> Output {
        Output { pane: self.pane_view(), loc: self.interpreter_print_loc as int }
    }

    pub open spec fn wf(&self) -> bool {
        &&& self.pane@.len() == PANE_ROWS
        &&& forall|i: int| 0 <= i < PANE_ROWS ==> #[trigger] self.pane@[i]@.len() == PANE_COLS
        &&& self.interpreter_print_loc <= PANE_ROWS
        &&& self.input_buffer@.len() <= INPUT_CAPACITY
        &&& self.editor matches Some(e) ==> e.wf()
        &&& self.state == WindowState::Editing ==> self.editor is Some
    }

    /// Everything but the pane and the output row is as in `w`.
    pub open spec fn same_but_output(&self, w: &Window) -> bool {
        &&& self.editor == w.editor
        &&& self.current_file == w.current_file
        &&& self.state == w.state
        &&& self.window_x == w.window_x
        &&& self.window_y == w.window_y
        &&& self.focused == w.focused
        &&& self.focused_file == w.focused_file
        &&& self.vruntime == w.vruntime
        &&& self.taking_input == w.taking_input
        &&& self.input_buffer@ == w.input_buffer@
    }

    fn blank() -> (r: Vec<char>)
        ensures
            r@ == blank_line(),
    {
        let r = vec![' '; PANE_COLS];
        assert(r@ =~= blank_line());
        r
    }

    /// A blank interior.
    fn blank_pane() -> (r: Vec<Vec<char>>)
        ensures
            r@.len() == PANE_ROWS,
            forall|i: int| 0 <= i < PANE_ROWS ==> #[trigger] r@[i]@ == blank_line(),
    {
        let mut r: Vec<Vec<char>> = Vec::new();
        let mut i: usize = 0;
        while i < PANE_ROWS
            invariant
                i <= PANE_ROWS,
                r@.len() == i,
                forall|k: int| 0 <= k < i ==> #[trigger] r@[k]@ == blank_line(),
            decreases PANE_ROWS - i,
        {
            r.push(Self::blank());
            i += 1;
        }
        r
    }

    /// A window in `Listing` mode with its top-left corner at `(x, y)`,
    /// nothing focused, no program, a blank interior.
    pub fn make(x: usize, y: usize) -> (r: Window)
        ensures
            r.wf(),
            r.editor is None,
            r.state == WindowState::Listing,
            r.window_x == x,
            r.window_y == y,
            !r.focused,
            r.focused_file == 0,
            r.vruntime == 0,
            r.interpreter_print_loc == 0,
            !r.taking_input,
            r.input_buffer@.len() == 0,
            r.current_file@ == Seq::new(10, |i: int| 0u8),
            forall|i: int| 0 <= i < PANE_ROWS ==> #[trigger] r.pane_view()[i] == blank_line(),
    {
        let r = Window {
            editor: None,
            interpreter_print_loc: 0,
            current_file: [0u8; 10],
            state: WindowState::Listing,
            window_x: x,
            window_y: y,
            focused: false,
            focused_file: 0,
            vruntime: 0,
            taking_input: false,
            input_buffer: Vec::new(),
            pane: Self::blank_pane(),
        };
        assert(r.current_file@ =~= Seq::new(10, |i: int| 0u8));
        r
    }

    /// Gives or takes the keyboard, for the window and its editor.
    pub fn set_focus(&mut self, focused: bool)
        requires
            old(self).wf(),
        ensures
            final(self).wf(),
            final(self).focused == focused,
            final(self).editor is Some == old(self).editor is Some,
            final(self).editor matches Some(e) ==> e@ == (EditorView { focused, ..old(self).editor->0@ }),
            final(self).state == old(self).state,
            final(self).vruntime == old(self).vruntime,
            final(self).output() == old(self).output(),
            final(self).taking_input == old(self).taking_input,
            final(self).input_buffer@ == old(self).input_buffer@,
            final(self).current_file == old(self).current_file,
            final(self).focused_file == old(self).focused_file,
            final(self).window_x == old(self).window_x,
            final(self).window_y == old(self).window_y,
            *final(self) == (Window { focused, editor: final(self).editor, ..*old(self) }),
    {
        self.focused = focused;
        if let Some(editor) = &mut self.editor {
            editor.set_focused(focused);
        }
    }

    /// The program of file `filename` now runs in the window: it enters
    /// `Running` with a blank interior and the given vruntime.
    pub fn run_program(&mut self, filename: [u8; 10], vruntime: usize)
        requires
            old(self).wf(),
        ensures
            final(self).wf(),
            *final(self) == (Window {
                state: WindowState::Running,
                current_file: filename,
                vruntime,
                pane: final(self).pane,
                ..*old(self)
            }),
            forall|i: int| 0 <= i < PANE_ROWS ==> #[trigger] final(self).pane_view()[i] == blank_line(),
    {
        self.current_file = filename;
        self.vruntime = vruntime;
        self.state = WindowState::Running;
        self.clear_window();
    }

    /// Blanks the whole interior.
    pub fn clear_window(&mut self)
        requires
            old(self).wf(),
        ensures
            final(self).wf(),
            forall|i: int| 0 <= i < PANE_ROWS ==> #[trigger] final(self).pane_view()[i] == blank_line(),
            final(self).interpreter_print_loc == old(self).interpreter_print_loc,
            final(self).same_but_output(old(self)),
            *final(self) == (Window { pane: final(self).pane, ..*old(self) }),
    {
        self.pane = Self::blank_pane();
    }

    /// Moves the interior up one row and blanks the bottom row.
    fn scroll(&mut self)
        requires
            old(self).wf(),
        ensures
            final(self).wf(),
            final(self).pane_view() == scrolled(old(self).pane_view()),
            final(self).interpreter_print_loc == old(self).interpreter_print_loc,
            final(self).same_but_output(old(self)),
    {
        let ghost start = self.pane_view();
        let mut i: usize = 0;
        while i < PANE_ROWS - 1
            invariant
                i <= PANE_ROWS - 1,
                self.wf(),
                self.interpreter_print_loc == old(self).interpreter_print_loc,
                self.same_but_output(old(self)),
                start == old(self).pane_view(),
                forall|k: int| 0 <= k < PANE_ROWS ==> #[trigger] self.pane@[k]@ == if k < i { start[k + 1] } else { start[k] },
            decreases PANE_ROWS - 1 - i,
        {
            let below = self.pane[i + 1].clone();
            self.pane.set(i, below);
            i += 1;
        }
        let b = Self::blank();
        self.pane.set(PANE_ROWS - 1, b);
        assert(self.pane_view() =~= scrolled(start));
    }

    /// Writes `chars[from..to]` from the start of row `row`.
    fn write_row(&mut self, row: usize, chars: &[u8], from: usize, to: usize)
        requires
            old(self).wf(),
            row < PANE_ROWS,
            from <= to <= chars@.len(),
            to - from <= PANE_COLS,
        ensures
            final(self).wf(),
            final(self).pane_view() == written(old(self).pane_view(), row as int, as_chars(chars@.subrange(from as int, to as int))),
            final(self).interpreter_print_loc == old(self).interpreter_print_loc,
            final(self).same_but_output(old(self)),
    {
        let ghost start = self.pane_view();
        let ghost text = as_chars(chars@.subrange(from as int, to as int));
        let mut line = self.pane[row].clone();
        let mut i: usize = from;
        while i < to
            invariant
                from <= i <= to,
                to <= chars@.len(),
                to - from <= PANE_COLS,
                row < PANE_ROWS,
                start == self.pane_view(),
                self.wf(),
                text == as_chars(chars@.subrange(from as int, to as int)),
                line@.len() == PANE_COLS,
                forall|c: int| 0 <= c < PANE_COLS ==> #[trigger] line@[c] == if c < i - from { text[c] } else { start[row as int][c] },
            decreases to - i,
        {
            line.set(i - from, chars[i] as char);
            i += 1;
        }
        assert(text.len() == to - from);
        assert(line@ =~= written(start, row as int, text)[row as int]);
        self.pane.set(row, line);
        assert(self.pane_view() =~= written(start, row as int, text));
    }

    /// Puts `chars[start..]` on the pane (see `put_rows`).
    fn put_from(&mut self, chars: &[u8], start: usize)
        requires
            old(self).wf(),
            start <= chars@.len(),
        ensures
            final(self).wf(),
            final(self).output() == put_rows(old(self).output(), chars@.skip(start as int)),
            final(self).same_but_output(old(self)),
        decreases chars@.len() - start,
    {
        let ghost rest = chars@.skip(start as int);
        if self.interpreter_print_loc == PANE_ROWS {
            self.scroll();
            self.interpreter_print_loc -= 1;
        }
        let row = self.interpreter_print_loc;
        let n = chars.len();
        if n - start > LINE_CHARS {
            self.write_row(row, chars, start, start + LINE_CHARS);
            self.interpreter_print_loc += 1;
            proof {
                assert(chars@.subrange(start as int, start + LINE_CHARS) =~= rest.take(LINE_CHARS as int));
                assert(rest.skip(LINE_CHARS as int) =~= chars@.skip(start + LINE_CHARS));
            }
            self.put_from(chars, start + LINE_CHARS);
        } else {
            let end = if n > start && chars[n - 1] == 10u8 { n - 1 } else { n };
            proof {
                assert(chars@.subrange(start as int, end as int) =~= line_of(rest));
            }
            self.write_row(row, chars, start, end);
            self.interpreter_print_loc += 1;
        }
    }

    /// The output sink of the window's program: prints `chars` as one line
    /// (see `printed`), wrapping long lines and scrolling when the pane is
    /// full.
    pub fn print(&mut self, chars: &[u8])
        requires
            old(self).wf(),
        ensures
            final(self).wf(),
            final(self).output() == printed(old(self).output(), chars@),
            final(self).same_but_output(old(self)),
    {
        if chars.len() != 0 {
            proof {
                assert(chars@.skip(0) =~= chars@);
            }
            self.put_from(chars, 0);
        }
    }

    /// The program now waits for input: capture starts afresh, and a full
    /// pane scrolls up one row so the prompt stays in view.
    pub fn await_input(&mut self)
        requires
            old(self).wf(),
        ensures
            final(self).wf(),
            final(self).taking_input,
            final(self).input_buffer@.len() == 0,
            final(self).output() == if old(self).interpreter_print_loc == PANE_ROWS {
                Output { pane: scrolled(old(self).pane_view()), loc: PANE_ROWS - 1 }
            } else {
                old(self).output()
            },
            final(self).interpreter_print_loc < PANE_ROWS,
            final(self).editor == old(self).editor,
            final(self).state == old(self).state,
            final(self).vruntime == old(self).vruntime,
            final(self).current_file == old(self).current_file,
            final(self).focused == old(self).focused,
            final(self).focused_file == old(self).focused_file,
            final(self).window_x == old(self).window_x,
            final(self).window_y == old(self).window_y,
    {
        self.input_buffer = Vec::new();
        self.taking_input = true;
        if self.interpreter_print_loc == PANE_ROWS {
            self.scroll();
            self.interpreter_print_loc -= 1;
        }
    }

    /// Adds a typed character to the captured input when it has a glyph and
    /// there is room.
    pub fn push_input(&mut self, c: char)
        requires
            old(self).wf(),
        ensures
            final(self).wf(),
            final(self).input_buffer@ == if drawable(c) && old(self).input_buffer@.len() < INPUT_CAPACITY {
                old(self).input_buffer@.push(c)
            } else {
                old(self).input_buffer@
            },
            final(self).output() == old(self).output(),
            final(self).taking_input == old(self).taking_input,
            final(self).vruntime == old(self).vruntime,
            final(self).editor == old(self).editor,
            final(self).focused_file == old(self).focused_file,
            final(self).current_file == old(self).current_file,
            final(self).focused == old(self).focused,
            final(self).window_x == old(self).window_x,
            final(self).window_y == old(self).window_y,
            final(self).state == old(self).state,
    {
        if is_drawable(c) && self.input_buffer.len() < INPUT_CAPACITY {
            self.input_buffer.push(c);
        }
    }

    /// Removes the last captured character, if any.
    pub fn backspace_input(&mut self)
        requires
            old(self).wf(),
        ensures
            final(self).wf(),
            final(self).input_buffer@ == if old(self).input_buffer@.len() > 0 {
                old(self).input_buffer@.drop_last()
            } else {
                old(self).input_buffer@
            },
            final(self).output() == old(self).output(),
            final(self).taking_input == old(self).taking_input,
            final(self).vruntime == old(self).vruntime,
            final(self).editor == old(self).editor,
            final(self).focused_file == old(self).focused_file,
            final(self).current_file == old(self).current_file,
            final(self).focused == old(self).focused,
            final(self).window_x == old(self).window_x,
            final(self).window_y == old(self).window_y,
            final(self).state == old(self).state,
    {
        if self.input_buffer.len() > 0 {
            self.input_buffer.pop();
        }
    }

    /// Ends input capture and hands back the captured line; later output
    /// goes below the input line.
    pub fn submit_input(&mut self) -> (text: Vec<char>)
        requires
            old(self).wf(),
        ensures
            final(self).wf(),
            text@ == old(self).input_buffer@,
            !final(self).taking_input,
            final(self).pane_view() == old(self).pane_view(),
            final(self).interpreter_print_loc == if old(self).interpreter_print_loc < PANE_ROWS {
                old(self).interpreter_print_loc + 1
            } else {
                old(self).interpreter_print_loc as int
            },
            final(self).input_buffer@ == old(self).input_buffer@,
            final(self).vruntime == old(self).vruntime,
            final(self).state == old(self).state,
            final(self).editor == old(self).editor,
            final(self).focused_file == old(self).focused_file,
            final(self).current_file == old(self).current_file,
            final(self).focused == old(self).focused,
            final(self).window_x == old(self).window_x,
            final(self).window_y == old(self).window_y,
    {
        let text = self.input_buffer.clone();
        proof {
            assert(text@ =~= self.input_buffer@);
        }
        if self.interpreter_print_loc < PANE_ROWS {
            self.interpreter_print_loc += 1;
        }
        self.taking_input = false;
        text
    }

    /// The program is gone: the window returns to its listing with a blank
    /// interior, output from the top, no captured input and no runtime.
    pub fn stop_program(&mut self)
        requires
            old(self).wf(),
        ensures
            final(self).wf(),
            final(self).state == WindowState::Listing,
            final(self).interpreter_print_loc == 0,
            final(self).vruntime == 0,
            !final(self).taking_input,
            final(self).input_buffer@.len() == 0,
            forall|i: int| 0 <= i < PANE_ROWS ==> #[trigger] final(self).pane_view()[i] == blank_line(),
            final(self).editor == old(self).editor,
            final(self).focused == old(self).focused,
            final(self).focused_file == old(self).focused_file,
            final(self).current_file == old(self).current_file,
            final(self).window_x == old(self).window_x,
            final(self).window_y == old(self).window_y,
    {
        self.interpreter_print_loc = 0;
        self.vruntime = 0;
        self.state = WindowState::Listing;
        self.taking_input = false;
        self.input_buffer = Vec::new();
        self.clear_window();
    }

    /// What is drawn on the output row while input is captured: the input
    /// so far, padded with spaces to `INPUT_CAPACITY` cells.
    pub fn input_line(&self) -> (r: Vec<char>)
        requires
            self.wf(),
        ensures
            r@.len() == INPUT_CAPACITY,
            forall|i: int| 0 <= i < INPUT_CAPACITY ==> #[trigger] r@[i] == if i < self.input_buffer@.len() {
                self.input_buffer@[i]
            } else {
                ' '
            },
    {
        let mut r: Vec<char> = Vec::new();
        let mut i: usize = 0;
        while i < INPUT_CAPACITY
            invariant
                self.wf(),
                i <= INPUT_CAPACITY,
                r@.len() == i,
                forall|k: int| 0 <= k < i ==> #[trigger] r@[k] == if k < self.input_buffer@.len() {
                    self.input_buffer@[k]
                } else {
                    ' '
                },
            decreases INPUT_CAPACITY - i,
        {
            if i < self.input_buffer.len() {
                r.push(self.input_buffer[i]);
            } else {
                r.push(' ');
            }
            i += 1;
        }
        r
    }

    /// How listed file `i` is drawn: the screen position of its first
    /// character (three names of `MAX_FILENAME_BYTES` cells to a row, inside
    /// the borders) and whether it is the highlighted one, drawn inverted.
    pub fn listed_file(&self, i: usize) -> (r: (usize, usize, bool))
        requires
            self.window_x + 1 + 2 * MAX_FILENAME_BYTES <= usize::MAX,
            self.window_y + 1 + i / 3 <= usize::MAX,
        ensures
            r.0 == self.window_x + 1 + (i % 3) * MAX_FILENAME_BYTES,
            r.1 == self.window_y + 1 + i / 3,
            r.2 == (i == self.focused_file),
    {
        (self.window_x + 1 + (i % 3) * MAX_FILENAME_BYTES, self.window_y + 1 + i / 3, i == self.focused_file)
    }
}

/// The output after printing each of `ls` in turn.
pub open spec fn print_lines(o: Output, ls: Seq<Seq<u8>>) -> Output
    decreases ls.len(),
{
    if ls.len() == 0 {
        o
    } else {
        printed(print_lines(o, ls.drop_last()), ls.last())
    }
}

/// A pane of the right shape.
pub open spec fn pane_shaped(p: Seq<Seq<char>>) -> bool {
    &&& p.len() == PANE_ROWS
    &&& forall|i: int| 0 <= i < PANE_ROWS ==> #[trigger] p[i].len() == PANE_COLS
}

/// After `k` lines that fit on a row are printed from the top of a pane, the
/// output row is `min(k, PANE_ROWS)` and the pane shows the last
/// `min(k, PANE_ROWS)` lines in order, the newest at the bottom: row `j`
/// starts with the text of line `k - min(k, PANE_ROWS) + j` (the line
/// without a final line feed). Older lines are no longer shown.
pub proof fn lemma_print_lines(o: Output, ls: Seq<Seq<u8>>)
    requires
        o.loc == 0,
        pane_shaped(o.pane),
        forall|i: int| 0 <= i < ls.len() ==> 1 <= (#[trigger] ls[i]).len() <= LINE_CHARS,
    ensures
        pane_shaped(print_lines(o, ls).pane),
        print_lines(o, ls).loc == if ls.len() < PANE_ROWS { ls.len() as int } else { PANE_ROWS as int },
        forall|j: int, c: int|
            0 <= j < print_lines(o, ls).loc && 0 <= c < line_of(ls[ls.len() - print_lines(o, ls).loc + j]).len()
                ==> #[trigger] print_lines(o, ls).pane[j][c] == line_of(ls[ls.len() - print_lines(o, ls).loc + j])[c] as char,
    decreases ls.len(),
{
    if ls.len() > 0 {
        let init = ls.drop_last();
        assert forall|i: int| 0 <= i < init.len() implies 1 <= (#[trigger] init[i]).len() <= LINE_CHARS by {
            assert(init[i] == ls[i]);
        }
        lemma_print_lines(o, init);
        let prev = print_lines(o, init);
        let l = ls.last();
        let k = ls.len() as int;
        let m = print_lines(o, ls).loc;
        let o1 = if prev.loc == PANE_ROWS {
            Output { pane: scrolled(prev.pane), loc: prev.loc - 1 }
        } else {
            prev
        };
        assert(print_lines(o, ls) == printed(prev, l));
        assert(line_of(l).len() <= LINE_CHARS);
        assert(printed(prev, l) == Output { pane: written(o1.pane, o1.loc, as_chars(line_of(l))), loc: o1.loc + 1 });
        let r = print_lines(o, ls);
        assert forall|j: int, c: int|
            0 <= j < m && 0 <= c < line_of(ls[k - m + j]).len() implies #[trigger] r.pane[j][c] == line_of(
                ls[k - m + j],
            )[c] as char by {
            if j == m - 1 {
                assert(ls[k - m + j] == l);
            } else if prev.loc == PANE_ROWS {
                assert(r.pane[j] == prev.pane[j + 1]);
                assert(ls[k - m + j] == init[init.len() - prev.loc + j + 1]);
            } else {
                assert(r.pane[j] == prev.pane[j]);
                assert(ls[k - m + j] == init[init.len() - prev.loc + j]);
            }
        }
    }
}

} // verus!
