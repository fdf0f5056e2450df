//! Which characters the text-mode framebuffer can show.
use vstd::prelude::*;

verus! {

/// A character that the framebuffer draws as a glyph: its low byte lies
/// between the space and the tilde.
pub open spec fn drawable(c: char) -> bool {
    let b = (c as u32) % 256;
    0x20 <= b <= 0x7e
}

/// True when the framebuffer has a glyph for `c` (judged by its low byte,
/// as the framebuffer stores one byte per cell).
pub fn is_drawable(c: char) -> (r: bool)
    ensures
        r == drawable(c),
{
    let b: u32 = (c as u32) % 256;
    0x20 <= b && b <= 0x7e
}

/// The character shown for a cell: the cell itself when it has a glyph, a
/// space otherwise.
pub open spec fn shown(c: char) -> char {
    if drawable(c) { c } else { ' ' }
}

/// The character that the framebuffer shows for `c`.
pub fn displayed(c: char) -> (r: char)
    ensures
        r == shown(c),
{
    if is_drawable(c) { c } else { ' ' }
}

} // verus!

verus! {

/// One screen cell as the editor wants it drawn.
#[derive(Clone, Copy, Debug, PartialEq, Eq, Structural)]
pub struct Glyph {
    pub ch: char,
    /// Drawn with inverted colors (the focused editor's cursor).
    pub highlighted: bool,
}

} // verus!
