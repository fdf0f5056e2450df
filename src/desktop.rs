//! The desktop: four windows in a 2x2 arrangement, the keyboard routing
//! between them and the scheduling of their programs on each tick.
//!
//! The desktop decides; the host acts. A key or a tick may call for work
//! that only the host can do (reading a file, starting or feeding a
//! program); the desktop then hands back an `Action` and the host reports
//! the outcome through `run_program`, `open_editor`, `print_to`,
//! `after_tick` or `set_num_files`.
use vstd::prelude::*;
use crate::cyclic::mod_floor;
use crate::glyph::{drawable, is_drawable};
use crate::scheduler::{charge, min_runnable, min_vruntime, pick, runnable_count, Scheduler, NUM_WINDOWS};
use crate::window::{as_chars, Output, Window, WindowState, PANE_ROWS};
use crate::buffer::{loaded, EditorView};
use crate::{DOCUMENT_LENGTH, MAX_FILENAME_BYTES, WIN_REGION_WIDTH, WIN_WIDTH};
use vstd::string::StringSliceAdditionalSpecFns;

verus! {

/// Files that the file store can hold.
pub const MAX_FILES_STORED: usize = 30;

/// Keys that do not stand for text.
#[derive(Clone, Copy, Debug, PartialEq, Eq, Structural)]
pub enum RawKey {
    F1,
    F2,
    F3,
    F4,
    F5,
    F6,
    ArrowUp,
    ArrowDown,
    ArrowLeft,
    ArrowRight,
    Escape,
    Other,
}

/// A decoded key press.
#[derive(Clone, Copy, Debug, PartialEq, Eq, Structural)]
pub enum KeyEvent {
    RawKey(RawKey),
    Unicode(char),
}

/// What one tick of a program reported.
#[derive(Clone, Copy, Debug, PartialEq, Eq, Structural)]
pub enum TickStatus {
    Continuing,
    Finished,
    AwaitInput,
}

/// Work for the host after a key press.
#[derive(Debug)]
pub enum Action {
    Nothing,
    /// Read listed file `file` and start it as a program in `window`, then
    /// report with `run_program` (or print an error with `print_to`).
    Launch { window: usize, file: usize },
    /// Read listed file `file` and open it with `open_editor` in `window`.
    Edit { window: usize, file: usize },
    /// Write `contents` to the file named by `window`'s `current_file`.
    Save { window: usize, contents: Vec<char> },
    /// Drop the program of `window`.
    Stop { window: usize },
    /// Hand `text` to the waiting program of `window`.
    ProvideInput { window: usize, text: Vec<char> },
    /// Create an empty file called `name`, then report with `set_num_files`.
    CreateFile { name: Vec<u8> },
}

/// Screen column of the left border of window `i`.
pub open spec fn window_x(i: int) -> int {
    if i % 2 == 0 { 0 } else { WIN_REGION_WIDTH as int / 2 }
}

/// Screen row of the top border of window `i`.
pub open spec fn window_y(i: int) -> int {
    if i < 2 { 1 } else { 13 }
}

/// The window that function key F1..F4 selects.
pub open spec fn fkey_window(k: RawKey) -> Option<usize> {
    match k {
        RawKey::F1 => Some(0usize),
        RawKey::F2 => Some(1usize),
        RawKey::F3 => Some(2usize),
        RawKey::F4 => Some(3usize),
        _ => None,
    }
}

/// A character that may stand in a file name: printable ASCII.
pub open spec fn name_char(c: char) -> bool {
    drawable(c) && (c as u32) < 0x80
}

/// The desktop state.
pub struct SwimInterface {
    pub windows: Vec<Window>,
    /// The window that receives the keyboard.
    pub focused_editor: usize,
    /// Files in the listing.
    pub num_files: usize,
    pub scheduler: Scheduler,
    /// The name typed so far for a new file.
    pub filename_input: Vec<u8>,
    /// Whether a new file name is being typed.
    pub creating_file: bool,
}

impl SwimInterface {
    pub open spec fn wf(&self) -> bool {
        &&& self.windows@.len() == NUM_WINDOWS
        &&& forall|i: int| 0 <= i < NUM_WINDOWS ==> (#[trigger] self.windows@[i]).wf()
        &&& forall|i: int| 0 <= i < NUM_WINDOWS ==> (#[trigger] self.windows@[i]).focused_file < MAX_FILES_STORED
        &&& self.focused_editor < NUM_WINDOWS
        &&& forall|i: int| 0 <= i < NUM_WINDOWS ==> (#[trigger] self.windows@[i]).focused == (i == self.focused_editor)
        &&& self.num_files <= MAX_FILES_STORED
        &&& self.scheduler.wf()
        &&& self.filename_input@.len() <= MAX_FILENAME_BYTES
    }

    /// Which windows have a program that can run now: the window is running
    /// and the host says its program is neither waiting nor finished.
    pub open spec fn runnable_of(&self, live: Seq<bool>) -> Seq<bool> {
        Seq::new(NUM_WINDOWS as nat, |i: int| self.windows@[i].state == WindowState::Running && live[i])
    }

    /// The windows' vruntimes.
    pub open spec fn vruntimes_of(&self) -> Seq<usize> {
        Seq::new(NUM_WINDOWS as nat, |i: int| self.windows@[i].vruntime)
    }

    /// The focused window.
    pub open spec fn focused(&self) -> Window {
        self.windows@[self.focused_editor as int]
    }

    /// Only window `w` may differ from `o`'s.
    pub open spec fn others_kept(&self, o: &SwimInterface, w: int) -> bool {
        &&& self.windows@.len() == o.windows@.len()
        &&& forall|j: int| 0 <= j < NUM_WINDOWS && j != w ==> #[trigger] self.windows@[j] == o.windows@[j]
    }

    /// Everything outside the windows is as in `o`.
    pub open spec fn desk_kept(&self, o: &SwimInterface) -> bool {
        &&& self.focused_editor == o.focused_editor
        &&& self.num_files == o.num_files
        &&& self.scheduler == o.scheduler
        &&& self.filename_input@ == o.filename_input@
        &&& self.creating_file == o.creating_file
    }

    /// The desktop at start-up: four windows in listing mode at their places
    /// on the screen, the first one focused, `num_files` files listed.
    pub fn new(num_files: usize) -> (r: SwimInterface)
        requires
            num_files <= MAX_FILES_STORED,
        ensures
            r.wf(),
            r.focused_editor == 0,
            r.num_files == num_files,
            !r.creating_file,
            r.filename_input@.len() == 0,
            r.scheduler.running_countdown == 0,
            forall|i: int|
                0 <= i < NUM_WINDOWS ==> {
                    &&& (#[trigger] r.windows@[i]).state == WindowState::Listing
                    &&& r.windows@[i].focused_file == 0
                    &&& r.windows@[i].vruntime == 0
                    &&& r.windows@[i].interpreter_print_loc == 0
                    &&& !r.windows@[i].taking_input
                    &&& r.windows@[i].window_x == window_x(i)
                    &&& r.windows@[i].window_y == window_y(i)
                    &&& r.windows@[i].focused == (i == 0)
                    &&& r.windows@[i].editor is None
                    &&& r.windows@[i].input_buffer@.len() == 0
                    &&& r.windows@[i].current_file@ == Seq::new(10, |k: int| 0u8)
                    &&& forall|k: int| 0 <= k < PANE_ROWS ==> #[trigger] r.windows@[i].pane_view()[k] == crate::window::blank_line()
                },
    {
        let mut windows: Vec<Window> = Vec::new();
        let mut first = Window::make(0, 1);
        let ghost made = first;
        first.focused = true;
        let second = Window::make(WIN_REGION_WIDTH / 2, 1);
        let third = Window::make(0, 13);
        let fourth = Window::make(WIN_REGION_WIDTH / 2, 13);
        proof {
            assert forall|k: int| 0 <= k < PANE_ROWS implies #[trigger] first.pane_view()[k]
                == crate::window::blank_line() by {
                assert(first.pane == made.pane);
                assert(made.pane_view()[k] == crate::window::blank_line());
            }
        }
        windows.push(first);
        windows.push(second);
        windows.push(third);
        windows.push(fourth);
        proof {
            assert(windows@ == seq![first, second, third, fourth]);
        }
        SwimInterface {
            windows,
            focused_editor: 0,
            num_files,
            scheduler: Scheduler::new(),
            filename_input: Vec::new(),
            creating_file: false,
        }
    }

    /// Which windows have a runnable program.
    pub fn runnable(&self, live: &[bool; 4]) -> (r: [bool; 4])
        requires
            self.wf(),
        ensures
            r@ == self.runnable_of(live@),
    {
        let r = [
            self.windows[0].state == WindowState::Running && live[0],
            self.windows[1].state == WindowState::Running && live[1],
            self.windows[2].state == WindowState::Running && live[2],
            self.windows[3].state == WindowState::Running && live[3],
        ];
        assert(r@ =~= self.runnable_of(live@));
        r
    }

    /// The windows' vruntimes.
    pub fn vruntimes(&self) -> (r: [usize; 4])
        requires
            self.wf(),
        ensures
            r@ == self.vruntimes_of(),
    {
        let r = [
            self.windows[0].vruntime,
            self.windows[1].vruntime,
            self.windows[2].vruntime,
            self.windows[3].vruntime,
        ];
        assert(r@ =~= self.vruntimes_of());
        r
    }

    /// The least vruntime among runnable programs (zero when none runs),
    /// the window that has it (`NUM_WINDOWS` when none) and how many are runnable.
    pub fn min_vruntime(&self, live: &[bool; 4]) -> (r: (usize, usize, usize))
        requires
            self.wf(),
        ensures
            r.0 == min_runnable(self.runnable_of(live@), self.vruntimes_of()),
            r.1 == match pick(self.runnable_of(live@), self.vruntimes_of()) {
                Some(w) => w,
                None => NUM_WINDOWS,
            },
            r.2 == runnable_count(self.runnable_of(live@)),
    {
        let run = self.runnable(live);
        let v = self.vruntimes();
        let r = min_vruntime(&run, &v);
        proof {
            crate::scheduler::lemma_pick_upto(run@, v@, 4);
        }
        r
    }

    /// One tick of the scheduler: picks the window whose program runs now
    /// (if any) and charges it one tick of vruntime. The host then ticks
    /// that program and reports with `after_tick`.
    pub fn tick(&mut self, live: &[bool; 4]) -> (r: Option<usize>)
        requires
            old(self).wf(),
        ensures
            final(self).wf(),
            r == old(self).scheduler.choice(old(self).runnable_of(live@), old(self).vruntimes_of()),
            final(self).scheduler == old(self).scheduler.next(old(self).runnable_of(live@), old(self).vruntimes_of()),
            final(self).vruntimes_of() == charge(old(self).vruntimes_of(), r),
            r matches Some(w) ==> w < NUM_WINDOWS && old(self).runnable_of(live@)[w as int],
            forall|i: int|
                0 <= i < NUM_WINDOWS ==> #[trigger] final(self).windows@[i] == (Window {
                    vruntime: final(self).windows@[i].vruntime,
                    ..old(self).windows@[i]
                }),
    {
        let run = self.runnable(live);
        let v = self.vruntimes();
        proof {
            crate::scheduler::lemma_only_runnable_chosen(self.scheduler, run@, v@);
        }
        let chosen = self.scheduler.select(&run, &v);
        if let Some(w) = chosen {
            let t = self.windows[w].vruntime;
            if t < usize::MAX {
                self.windows[w].vruntime = t + 1;
            }
        }
        proof {
            assert(self.vruntimes_of() =~= charge(v@, chosen));
        }
        chosen
    }

    /// Takes the report of the program that ran in window `w`: one that now
    /// waits for input gets its window ready to capture a line.
    pub fn after_tick(&mut self, w: usize, status: TickStatus)
        requires
            old(self).wf(),
            w < NUM_WINDOWS,
        ensures
            final(self).wf(),
            final(self).desk_kept(old(self)),
            final(self).others_kept(old(self), w as int),
            status != TickStatus::AwaitInput ==> final(self).windows@[w as int] == old(self).windows@[w as int],
            status == TickStatus::AwaitInput ==> {
                let (a, b) = (final(self).windows@[w as int], old(self).windows@[w as int]);
                &&& a.taking_input
                &&& a.input_buffer@.len() == 0
                &&& a.output() == if b.interpreter_print_loc == PANE_ROWS {
                    Output { pane: crate::window::scrolled(b.pane_view()), loc: PANE_ROWS - 1 }
                } else {
                    b.output()
                }
                &&& a.state == b.state
                &&& a.vruntime == b.vruntime
                &&& a.editor == b.editor
                &&& a.current_file == b.current_file
                &&& a.focused == b.focused
                &&& a.focused_file == b.focused_file
                &&& a.window_x == b.window_x
                &&& a.window_y == b.window_y
            },
    {
        if status == TickStatus::AwaitInput {
            self.windows[w].await_input();
        }
    }

    /// The output sink of window `w`'s program (see `Window::print`).
    pub fn print_to(&mut self, w: usize, chars: &[u8])
        requires
            old(self).wf(),
            w < NUM_WINDOWS,
        ensures
            final(self).wf(),
            final(self).desk_kept(old(self)),
            final(self).others_kept(old(self), w as int),
            final(self).windows@[w as int].output() == crate::window::printed(
                old(self).windows@[w as int].output(),
                chars@,
            ),
            final(self).windows@[w as int].same_but_output(&old(self).windows@[w as int]),
    {
        self.windows[w].print(chars);
    }

    /// Window `w` now runs the program of file `filename`, which the host
    /// has read and started: the window enters `Running` with a blank
    /// interior, and its vruntime starts at the least vruntime of the
    /// programs runnable now (zero when none is), given which programs are
    /// neither waiting nor finished (`live`). A launch that fails leaves the
    /// window as it was.
    pub fn run_program(&mut self, w: usize, filename: [u8; 10], live: &[bool; 4])
        requires
            old(self).wf(),
            w < NUM_WINDOWS,
        ensures
            final(self).wf(),
            final(self).desk_kept(old(self)),
            final(self).others_kept(old(self), w as int),
            final(self).windows@[w as int] == (Window {
                state: WindowState::Running,
                current_file: filename,
                vruntime: min_runnable(old(self).runnable_of(live@), old(self).vruntimes_of()),
                pane: final(self).windows@[w as int].pane,
                ..old(self).windows@[w as int]
            }),
            forall|i: int|
                0 <= i < PANE_ROWS ==> #[trigger] final(self).windows@[w as int].pane_view()[i]
                    == crate::window::blank_line(),
    {
        let (least, _, _) = self.min_vruntime(live);
        self.windows[w].run_program(filename, least);
    }

    /// Opens `contents`, the text of file `filename`, in a fresh editor in
    /// window `w`, which enters `Editing` mode; the editor shows its cursor
    /// when the window has the keyboard.
    pub fn open_editor(&mut self, w: usize, filename: [u8; 10], contents: &str)
        requires
            old(self).wf(),
            w < NUM_WINDOWS,
        ensures
            final(self).wf(),
            final(self).desk_kept(old(self)),
            final(self).others_kept(old(self), w as int),
            final(self).windows@[w as int] == (Window {
                state: WindowState::Editing,
                current_file: filename,
                editor: final(self).windows@[w as int].editor,
                ..old(self).windows@[w as int]
            }),
            final(self).windows@[w as int].editor matches Some(e) && e.wf() && e@ == loaded(
                contents.spec_bytes(),
                WIN_WIDTH as int,
                DOCUMENT_LENGTH as int,
                w == old(self).focused_editor,
            ),
    {
        let focused = self.windows[w].focused;
        let editor = crate::buffer::TextEditor::new(contents, focused);
        self.windows[w].editor = Some(editor);
        self.windows[w].state = WindowState::Editing;
        self.windows[w].current_file = filename;
    }

    /// Records how many files the listing holds now.
    pub fn set_num_files(&mut self, num_files: usize)
        requires
            old(self).wf(),
            num_files <= MAX_FILES_STORED,
        ensures
            final(self).wf(),
            final(self).num_files == num_files,
            final(self).windows@ == old(self).windows@,
            final(self).focused_editor == old(self).focused_editor,
            final(self).creating_file == old(self).creating_file,
    {
        self.num_files = num_files;
    }

    /// What a key that does not stand for text does (see `handle_raw`).
    pub open spec fn raw_key_effect(o: &SwimInterface, n: &SwimInterface, code: RawKey, r: &Action) -> bool {
        let f = o.focused_editor as int;
        let w0 = o.windows@[f];
        let w1 = n.windows@[f];
        match code {
            RawKey::F1 | RawKey::F2 | RawKey::F3 | RawKey::F4 => {
                &&& *r is Nothing
                &&& n.focus_moved(o, fkey_window(code)->0)
            },
            RawKey::F5 => {
                &&& *r is Nothing
                &&& n.windows@ == o.windows@
                &&& n.focused_editor == o.focused_editor
                &&& n.num_files == o.num_files
                &&& n.scheduler == o.scheduler
                &&& n.creating_file == (o.creating_file || w0.state == WindowState::Listing)
                &&& w0.state == WindowState::Listing ==> n.filename_input@.len() == 0
                &&& w0.state != WindowState::Listing ==> n.filename_input@ == o.filename_input@
            },
            RawKey::F6 => {
                &&& n.others_kept(o, f)
                &&& n.desk_kept(o)
                &&& w1.state == WindowState::Listing
                &&& forall|i: int|
                    0 <= i < PANE_ROWS ==> #[trigger] w1.pane_view()[i] == crate::window::blank_line()
                &&& if w0.state == WindowState::Editing {
                    &&& *r matches Action::Save { window, contents } && window == f && contents@
                        == crate::buffer::doc_text(w0.editor->0@.doc)
                    &&& w1 == (Window { editor: None, state: WindowState::Listing, pane: w1.pane, ..w0 })
                } else {
                    &&& *r matches Action::Stop { window } && window == f
                    &&& w1.vruntime == 0
                    &&& w1.interpreter_print_loc == 0
                    &&& !w1.taking_input
                    &&& w1.editor == w0.editor
                }
            },
            RawKey::ArrowLeft | RawKey::ArrowRight | RawKey::ArrowUp | RawKey::ArrowDown => {
                &&& *r is Nothing
                &&& n.others_kept(o, f)
                &&& n.desk_kept(o)
                &&& w0.state == WindowState::Listing ==> w1 == (Window { focused_file: w1.focused_file, ..w0 })
                &&& w0.state == WindowState::Editing ==> w1 == (Window { editor: w1.editor, ..w0 })
                &&& w0.state == WindowState::Running ==> w1 == w0
                &&& w0.state == WindowState::Listing ==> w1.focused_file == if o.num_files == 0 {
                    w0.focused_file as int
                } else if code == RawKey::ArrowRight {
                    (w0.focused_file + 1) % (o.num_files as int)
                } else if code == RawKey::ArrowLeft {
                    (w0.focused_file + o.num_files - 1) % (o.num_files as int)
                } else {
                    w0.focused_file as int
                }
                &&& w0.state == WindowState::Editing ==> {
                    let e0 = w0.editor->0@;
                    &&& w1.editor matches Some(e) && e.wf() && e@ == match code {
                        RawKey::ArrowLeft => e0.move_cursor_left(),
                        RawKey::ArrowRight => e0.move_cursor_right(),
                        RawKey::ArrowUp => e0.move_cursor_up(),
                        _ => e0.move_cursor_down(),
                    }
                }
            },
            RawKey::Escape => {
                &&& *r is Nothing
                &&& n.windows@ == o.windows@
                &&& n.focused_editor == o.focused_editor
                &&& n.num_files == o.num_files
                &&& n.scheduler == o.scheduler
                &&& !n.creating_file
                &&& n.filename_input@.len() == 0
            },
            RawKey::Other => {
                &&& *r is Nothing
                &&& n.windows@ == o.windows@
                &&& n.desk_kept(o)
            },
        }
    }

    /// What a key that stands for text does (see `handle_unicode`).
    pub open spec fn unicode_key_effect(o: &SwimInterface, n: &SwimInterface, c: char, live: Seq<bool>, r: &Action) -> bool {
        let f = o.focused_editor as int;
        let w0 = o.windows@[f];
        let w1 = n.windows@[f];
        let name0 = o.filename_input@;
        if o.creating_file && w0.state == WindowState::Listing {
            &&& n.windows@ == o.windows@
            &&& n.focused_editor == o.focused_editor
            &&& n.num_files == o.num_files
            &&& n.scheduler == o.scheduler
            &&& c == '\n' ==> (*r matches Action::CreateFile { name } && name@ == name0)
            &&& c != '\n' ==> *r is Nothing
            &&& n.creating_file == (c != '\n' && c != '\u{1b}')
            &&& n.filename_input@ == if c == '\n' || c == '\u{1b}' {
                Seq::empty()
            } else if c == '\u{8}' {
                if name0.len() > 0 { name0.drop_last() } else { name0 }
            } else if name_char(c) && name0.len() < MAX_FILENAME_BYTES {
                name0.push(c as u8)
            } else {
                name0
            }
        } else {
            &&& n.desk_kept(o)
            &&& n.others_kept(o, f)
            &&& match w0.state {
                WindowState::Editing => {
                    let e0 = w0.editor->0@;
                    &&& *r is Nothing
                    &&& w1.state == WindowState::Editing
                    &&& w1.vruntime == w0.vruntime
                    &&& w1.output() == w0.output()
                    &&& w1.editor matches Some(e) && e.wf() && e@ == if c == '\n' {
                        e0.newline()
                    } else if c == '\u{8}' {
                        e0.backspace_char()
                    } else if c == '\u{7f}' {
                        e0.delete_char()
                    } else if drawable(c) {
                        e0.push_char(c)
                    } else {
                        e0
                    }
                },
                WindowState::Running => {
                    if !w0.taking_input {
                        *r is Nothing && w1 == w0
                    } else if c == '\n' {
                        &&& *r matches Action::ProvideInput { window, text } && window == f && text@
                            == w0.input_buffer@
                        &&& w1.vruntime == min_runnable(o.runnable_of(live), o.vruntimes_of())
                        &&& !w1.taking_input
                        &&& w1.state == WindowState::Running
                        &&& w1.pane_view() == w0.pane_view()
                        &&& w1.interpreter_print_loc == if w0.interpreter_print_loc < PANE_ROWS {
                            w0.interpreter_print_loc + 1
                        } else {
                            w0.interpreter_print_loc as int
                        }
                    } else {
                        &&& *r is Nothing
                        &&& w1.taking_input
                        &&& w1.vruntime == w0.vruntime
                        &&& w1.output() == w0.output()
                        &&& w1.input_buffer@ == if c == '\u{8}' {
                            if w0.input_buffer@.len() > 0 {
                                w0.input_buffer@.drop_last()
                            } else {
                                w0.input_buffer@
                            }
                        } else if drawable(c) && w0.input_buffer@.len() < crate::window::INPUT_CAPACITY {
                            w0.input_buffer@.push(c)
                        } else {
                            w0.input_buffer@
                        }
                    }
                },
                WindowState::Listing => {
                    if c == 'r' {
                        &&& *r matches Action::Launch { window, file } && window == f && file == w0.focused_file
                        &&& w1 == w0
                    } else if c == 'e' {
                        &&& *r matches Action::Edit { window, file } && window == f && file == w0.focused_file
                        &&& w1 == w0
                    } else {
                        *r is Nothing && w1 == w0
                    }
                },
            }
        }
    }

    /// The keyboard has moved from `o`'s focused window to window `k`:
    /// the two windows swap their focus flags (their editors' too) and are
    /// otherwise unchanged, the other windows are unchanged, and a new file
    /// name being typed is abandoned.
    pub open spec fn focus_moved(&self, o: &SwimInterface, k: usize) -> bool {
        &&& self.focused_editor == k
        &&& self.num_files == o.num_files
        &&& self.scheduler == o.scheduler
        &&& !self.creating_file
        &&& self.filename_input@.len() == 0
        &&& self.windows@.len() == NUM_WINDOWS
        &&& forall|j: int|
            0 <= j < NUM_WINDOWS && j != k && j != o.focused_editor ==> #[trigger] self.windows@[j] == o.windows@[j]
        &&& forall|j: int|
            0 <= j < NUM_WINDOWS && (j == k || j == o.focused_editor) ==> {
                let (a, b) = (#[trigger] self.windows@[j], o.windows@[j]);
                &&& a == (Window { focused: j == k, editor: a.editor, ..b })
                &&& a.editor is Some == b.editor is Some
                &&& a.editor matches Some(e) ==> e@ == (EditorView { focused: j == k, ..b.editor->0@ })
            }
    }

    /// Gives the keyboard to window `n`; a new file name being typed is
    /// abandoned.
    fn focus_window(&mut self, n: usize)
        requires
            old(self).wf(),
            n < NUM_WINDOWS,
        ensures
            final(self).wf(),
            final(self).focus_moved(old(self), n),
    {
        let ghost before = *self;
        let f = self.focused_editor;
        self.windows[f].set_focus(false);
        let ghost mid = self.windows@;
        self.focused_editor = n;
        self.windows[n].set_focus(true);
        self.creating_file = false;
        self.filename_input = Vec::new();
        proof {
            assert forall|j: int| 0 <= j < NUM_WINDOWS && (j == n || j == f) implies {
                let (a, b) = (#[trigger] self.windows@[j], before.windows@[j]);
                &&& a == (Window { focused: j == n, editor: a.editor, ..b })
                &&& a.editor is Some == b.editor is Some
                &&& a.editor matches Some(e) ==> e@ == (EditorView { focused: j == n, ..b.editor->0@ })
            } by {
                if j == n {
                    if j != f {
                        assert(mid[j] == before.windows@[j]);
                    }
                    if let Some(e) = self.windows@[j].editor {
                        assert(mid[j].editor is Some);
                        assert(e@ == (EditorView { focused: true, ..mid[j].editor->0@ }));
                        if j == f {
                            assert(mid[j].editor->0@ == (EditorView { focused: false, ..before.windows@[j].editor->0@ }));
                        } else {
                            assert(mid[j] == before.windows@[j]);
                        }
                        assert(e@ == (EditorView { focused: true, ..before.windows@[j].editor->0@ }));
                    }
                } else {
                    assert(self.windows@[j] == mid[j]);
                }
            }
        }
    }

    /// Handles a key that does not stand for text.
    ///
    /// F1..F4 move the keyboard to that window. F5 in a listing starts the
    /// entry of a new file name, and Escape cancels it. F6 leaves the
    /// focused window's mode: an edited document is handed back for saving,
    /// a program is stopped (see `Window::stop_program`). The arrows move
    /// the highlighted file of a listing, cyclically, or the cursor of an
    /// editor.
    pub fn handle_raw(&mut self, code: RawKey) -> (r: Action)
        requires
            old(self).wf(),
        ensures
            final(self).wf(),
            Self::raw_key_effect(old(self), final(self), code, &r),
    {
        let f = self.focused_editor;
        match code {
            RawKey::F1 => {
                self.focus_window(0);
                Action::Nothing
            },
            RawKey::F2 => {
                self.focus_window(1);
                Action::Nothing
            },
            RawKey::F3 => {
                self.focus_window(2);
                Action::Nothing
            },
            RawKey::F4 => {
                self.focus_window(3);
                Action::Nothing
            },
            RawKey::F5 => {
                if self.windows[f].state == WindowState::Listing {
                    self.creating_file = true;
                    self.filename_input = Vec::new();
                }
                Action::Nothing
            },
            RawKey::F6 => {
                if self.windows[f].state == WindowState::Editing {
                    let contents = match &self.windows[f].editor {
                        Some(e) => e.get_file_contents(),
                        None => Vec::new(),
                    };
                    self.windows[f].editor = None;
                    self.windows[f].state = WindowState::Listing;
                    self.windows[f].clear_window();
                    Action::Save { window: f, contents }
                } else {
                    self.windows[f].stop_program();
                    Action::Stop { window: f }
                }
            },
            RawKey::ArrowLeft | RawKey::ArrowRight | RawKey::ArrowUp | RawKey::ArrowDown => {
                match self.windows[f].state {
                    WindowState::Listing => {
                        let n = self.num_files;
                        if n > 0 {
                            let ff = self.windows[f].focused_file;
                            if code == RawKey::ArrowRight {
                                self.windows[f].focused_file = mod_floor(ff + 1, n);
                            } else if code == RawKey::ArrowLeft {
                                self.windows[f].focused_file = mod_floor(ff + n - 1, n);
                            }
                        }
                    },
                    WindowState::Editing => {
                        if let Some(e) = &mut self.windows[f].editor {
                            match code {
                                RawKey::ArrowLeft => e.move_cursor_left(),
                                RawKey::ArrowRight => e.move_cursor_right(),
                                RawKey::ArrowUp => e.move_cursor_up(),
                                _ => e.move_cursor_down(),
                            }
                        }
                    },
                    WindowState::Running => {},
                }
                Action::Nothing
            },
            RawKey::Escape => {
                self.creating_file = false;
                self.filename_input = Vec::new();
                Action::Nothing
            },
            RawKey::Other => Action::Nothing,
        }
    }

    /// Handles a key that stands for text, given which windows' programs
    /// are neither waiting nor finished (`live`).
    ///
    /// While a file name is typed in a listing, printable ASCII is added to it (up to
    /// `MAX_FILENAME_BYTES`), backspace removes the last one, Escape cancels
    /// and Enter asks for the file. Otherwise the key goes by the focused
    /// window's mode: an editor takes line feed, backspace, delete and
    /// printable characters; a program waiting for input gets the typed line
    /// on Enter, its vruntime then restarting at the least vruntime of the
    /// runnable programs; a listing asks for the highlighted file to be
    /// started on `r` (see `run_program`) and opened for editing on `e`.
    pub fn handle_unicode(&mut self, c: char, live: &[bool; 4]) -> (r: Action)
        requires
            old(self).wf(),
        ensures
            final(self).wf(),
            Self::unicode_key_effect(old(self), final(self), c, live@, &r),
    {
        let f = self.focused_editor;
        if self.creating_file && self.windows[f].state == WindowState::Listing {
            if c == '\n' {
                let name = self.filename_input.clone();
                proof {
                    assert(name@ =~= self.filename_input@);
                }
                self.filename_input = Vec::new();
                self.creating_file = false;
                return Action::CreateFile { name };
            } else if c == '\u{1b}' {
                self.creating_file = false;
                self.filename_input = Vec::new();
            } else if c == '\u{8}' {
                if self.filename_input.len() > 0 {
                    self.filename_input.pop();
                }
            } else if is_drawable(c) && (c as u32) < 0x80 && self.filename_input.len() < MAX_FILENAME_BYTES {
                self.filename_input.push(c as u8);
            }
            return Action::Nothing;
        }
        match self.windows[f].state {
            WindowState::Editing => {
                if let Some(e) = &mut self.windows[f].editor {
                    if c == '\n' {
                        e.newline();
                    } else if c == '\u{8}' {
                        e.backspace_char();
                    } else if c == '\u{7f}' {
                        e.delete_char();
                    } else if is_drawable(c) {
                        e.push_char(c);
                    }
                }
                Action::Nothing
            },
            WindowState::Running => {
                if !self.windows[f].taking_input {
                    Action::Nothing
                } else if c == '\n' {
                    let (least, _, _) = self.min_vruntime(live);
                    self.windows[f].vruntime = least;
                    let text = self.windows[f].submit_input();
                    Action::ProvideInput { window: f, text }
                } else if c == '\u{8}' {
                    self.windows[f].backspace_input();
                    Action::Nothing
                } else {
                    self.windows[f].push_input(c);
                    Action::Nothing
                }
            },
            WindowState::Listing => {
                if c == 'r' {
                    Action::Launch { window: f, file: self.windows[f].focused_file }
                } else if c == 'e' {
                    Action::Edit { window: f, file: self.windows[f].focused_file }
                } else {
                    Action::Nothing
                }
            },
        }
    }

    /// Routes a key press to `handle_raw` or `handle_unicode`.
    pub fn key(&mut self, key: KeyEvent, live: &[bool; 4]) -> (r: Action)
        requires
            old(self).wf(),
        ensures
            final(self).wf(),
            match key {
                KeyEvent::RawKey(code) => Self::raw_key_effect(old(self), final(self), code, &r),
                KeyEvent::Unicode(c) => Self::unicode_key_effect(old(self), final(self), c, live@, &r),
            },
    {
        match key {
            KeyEvent::RawKey(code) => self.handle_raw(code),
            KeyEvent::Unicode(c) => self.handle_unicode(c, live),
        }
    }

    /// The top line of the screen for the focused window: "Editing" or
    /// "Running" and the file name, "Awaiting Input" while a program waits,
    /// and the new-file prompt with the name typed so far in a listing.
    pub open spec fn status_text(&self) -> Seq<char> {
        let w = self.focused();
        match w.state {
            WindowState::Editing => editing_label() + as_chars(w.current_file@),
            WindowState::Running => if w.taking_input {
                awaiting_label()
            } else {
                running_label() + as_chars(w.current_file@)
            },
            WindowState::Listing => filename_label() + as_chars(self.filename_input@),
        }
    }

    /// The text of the status line (see `status_text`).
    pub fn status_line(&self) -> (r: Vec<char>)
        requires
            self.wf(),
        ensures
            r@ == self.status_text(),
    {
        let w = &self.windows[self.focused_editor];
        match w.state {
            WindowState::Editing => {
                let mut r = vec!['E', 'd', 'i', 't', 'i', 'n', 'g', ' '];
                push_bytes(&mut r, w.current_file.as_slice());
                r
            },
            WindowState::Running => {
                if w.taking_input {
                    let r = vec![
                        'A', 'w', 'a', 'i', 't', 'i', 'n', 'g', ' ', 'I', 'n', 'p', 'u', 't', ' ', ' ', ' ', ' ',
                    ];
                    assert(r@ =~= awaiting_label());
                    r
                } else {
                    let mut r = vec!['R', 'u', 'n', 'n', 'i', 'n', 'g', ' '];
                    push_bytes(&mut r, w.current_file.as_slice());
                    r
                }
            },
            WindowState::Listing => {
                let mut r = vec!['F', '5', ' ', '-', ' ', 'F', 'i', 'l', 'e', 'n', 'a', 'm', 'e', ':', ' '];
                push_bytes(&mut r, self.filename_input.as_slice());
                r
            },
        }
    }
}

pub open spec fn editing_label() -> Seq<char> {
    seq!['E', 'd', 'i', 't', 'i', 'n', 'g', ' ']
}

pub open spec fn running_label() -> Seq<char> {
    seq!['R', 'u', 'n', 'n', 'i', 'n', 'g', ' ']
}

pub open spec fn awaiting_label() -> Seq<char> {
    seq!['A', 'w', 'a', 'i', 't', 'i', 'n', 'g', ' ', 'I', 'n', 'p', 'u', 't', ' ', ' ', ' ', ' ']
}

pub open spec fn filename_label() -> Seq<char> {
    seq!['F', '5', ' ', '-', ' ', 'F', 'i', 'l', 'e', 'n', 'a', 'm', 'e', ':', ' ']
}

/// Appends `bytes`, each as the character drawn for it.
fn push_bytes(out: &mut Vec<char>, bytes: &[u8])
    ensures
        final(out)@ == old(out)@ + as_chars(bytes@),
{
    let ghost start = out@;
    let mut i: usize = 0;
    while i < bytes.len()
        invariant
            i <= bytes@.len(),
            out@ == start + as_chars(bytes@.take(i as int)),
        decreases bytes@.len() - i,
    {
        out.push(bytes[i] as char);
        i += 1;
        proof {
            assert(out@ =~= start + as_chars(bytes@.take(i as int)));
        }
    }
    proof {
        assert(bytes@.take(i as int) =~= bytes@);
    }
}

} // verus!
