//! A text-mode desktop core: a fixed-grid text editor, per-window output
//! panes with scrolling, a fair-share scheduler for interpreter programs and
//! the keyboard routing that ties four windows together.
//!
//! Everything here is plain data and decisions; drawing on the framebuffer,
//! the file store and the interpreter itself live with the host.
use vstd::prelude::*;

pub mod buffer;
pub mod chrome;
pub mod cyclic;
pub mod glyph;
pub mod scheduler;
pub mod window;
pub mod desktop;

pub use buffer::TextEditor;
pub use cyclic::{add1, safe_add, sub1};
pub use desktop::SwimInterface;
pub use window::{Window, WindowState};

verus! {

/// Width of the area shared by the four windows (the task panel takes the rest).
pub const WIN_REGION_WIDTH: usize = 70;

/// Columns inside one window, between its two vertical borders.
pub const WIN_WIDTH: usize = 33;

/// Rows kept by a text editor document.
pub const DOCUMENT_LENGTH: usize = 40;

/// Ticks shared out among the runnable programs in one scheduling round.
pub const SCHED_LATENCY: usize = 24;

/// Bytes in a file name.
pub const MAX_FILENAME_BYTES: usize = 10;

} // verus!
