//! The window frames: which box-drawing character stands on each border cell
//! and what the title row says. Focused windows get double lines, the others
//! single lines (code page 437 characters, one byte each).
use vstd::prelude::*;
use crate::window::{as_chars, WindowState};
use crate::WIN_REGION_WIDTH;

verus! {

/// Column of a window's right border, from its left border.
pub const FRAME_RIGHT: usize = WIN_REGION_WIDTH / 2 - 1;

/// Row of a window's bottom border, from its top border.
pub const FRAME_BOTTOM: usize = 11;

/// Horizontal line.
pub open spec fn horizontal(focused: bool) -> char {
    if focused { 205u8 as char } else { 196u8 as char }
}

/// The border character at `(dx, dy)` from a window's top-left corner; `None`
/// inside the frame, past it, and on the title part of the top row (from
/// column 3 on), which `title_text` fills.
pub open spec fn border_at(focused: bool, dx: int, dy: int) -> Option<char> {
    let (r, b) = (FRAME_RIGHT as int, FRAME_BOTTOM as int);
    if dx == 0 && dy == 0 {
        Some(if focused { 201u8 as char } else { 218u8 as char })
    } else if dx == r && dy == 0 {
        Some(if focused { 187u8 as char } else { 191u8 as char })
    } else if dx == 0 && dy == b {
        Some(if focused { 200u8 as char } else { 192u8 as char })
    } else if dx == r && dy == b {
        Some(if focused { 188u8 as char } else { 217u8 as char })
    } else if dy == 0 && 1 <= dx <= 2 {
        Some(horizontal(focused))
    } else if dy == b && 1 <= dx < r {
        Some(horizontal(focused))
    } else if 1 <= dy < b && (dx == 0 || dx == r) {
        Some(if focused { 186u8 as char } else { 179u8 as char })
    } else {
        None
    }
}

/// The border character at `(dx, dy)` (see `border_at`).
pub fn border_char(focused: bool, dx: usize, dy: usize) -> (r: Option<char>)
    ensures
        r == border_at(focused, dx as int, dy as int),
{
    let h = if focused { 205u8 as char } else { 196u8 as char };
    if dx == 0 && dy == 0 {
        Some(if focused { 201u8 as char } else { 218u8 as char })
    } else if dx == FRAME_RIGHT && dy == 0 {
        Some(if focused { 187u8 as char } else { 191u8 as char })
    } else if dx == 0 && dy == FRAME_BOTTOM {
        Some(if focused { 200u8 as char } else { 192u8 as char })
    } else if dx == FRAME_RIGHT && dy == FRAME_BOTTOM {
        Some(if focused { 188u8 as char } else { 217u8 as char })
    } else if dy == 0 && 1 <= dx && dx <= 2 {
        Some(h)
    } else if dy == FRAME_BOTTOM && 1 <= dx && dx < FRAME_RIGHT {
        Some(h)
    } else if 1 <= dy && dy < FRAME_BOTTOM && (dx == 0 || dx == FRAME_RIGHT) {
        Some(if focused { 186u8 as char } else { 179u8 as char })
    } else {
        None
    }
}

/// `n` copies of `c`.
pub open spec fn repeat(c: char, n: nat) -> Seq<char> {
    Seq::new(n, |i: int| c)
}

/// The title row of window `i` from column 3 of its top border: "F" and the
/// window's number, then the listing's key help, or the file name and the
/// way out, padded with the border line up to the right corner.
pub open spec fn title_text(i: int, focused: bool, state: WindowState, file: Seq<u8>) -> Seq<char> {
    let head = seq!['F', ((i + 1) + 48) as char];
    match state {
        WindowState::Listing => head + seq![' ', '(', 'e', ')', 'd', 'i', 't', ' ', '(', 'r', ')', 'u', 'n']
            + repeat(horizontal(focused), 16),
        _ => head + seq![' '] + as_chars(file) + seq![
            ' ',
            '(',
            'F',
            '6',
            ' ',
            't',
            'o',
            ' ',
            'e',
            'x',
            'i',
            't',
            ')',
        ] + repeat(horizontal(focused), 5),
    }
}

/// The title row of window `i` (see `title_text`).
pub fn title(i: usize, focused: bool, state: WindowState, file: &[u8; 10]) -> (r: Vec<char>)
    requires
        i < 4,
    ensures
        r@ == title_text(i as int, focused, state, file@),
{
    let h = if focused { 205u8 as char } else { 196u8 as char };
    let digit = ((i + 1 + 48) as u8) as char;
    let mut r = vec!['F', digit];
    let ghost head = r@;
    let n: usize = match state {
        WindowState::Listing => {
            let help = vec![' ', '(', 'e', ')', 'd', 'i', 't', ' ', '(', 'r', ')', 'u', 'n'];
            let mut k: usize = 0;
            while k < help.len()
                invariant
                    k <= help@.len(),
                    r@ == head + help@.take(k as int),
                decreases help@.len() - k,
            {
                r.push(help[k]);
                k += 1;
                proof {
                    assert(r@ =~= head + help@.take(k as int));
                }
            }
            proof {
                assert(help@.take(k as int) =~= help@);
            }
            16
        },
        _ => {
            r.push(' ');
            let mut k: usize = 0;
            while k < 10
                invariant
                    k <= 10,
                    r@ == head + seq![' '] + as_chars(file@.take(k as int)),
                decreases 10 - k,
            {
                r.push(file[k] as char);
                k += 1;
                proof {
                    assert(r@ =~= head + seq![' '] + as_chars(file@.take(k as int)));
                }
            }
            proof {
                assert(file@.take(10) =~= file@);
            }
            let way_out = vec![' ', '(', 'F', '6', ' ', 't', 'o', ' ', 'e', 'x', 'i', 't', ')'];
            let ghost mid = r@;
            let mut k: usize = 0;
            while k < way_out.len()
                invariant
                    k <= way_out@.len(),
                    r@ == mid + way_out@.take(k as int),
                decreases way_out@.len() - k,
            {
                r.push(way_out[k]);
                k += 1;
                proof {
                    assert(r@ =~= mid + way_out@.take(k as int));
                }
            }
            proof {
                assert(way_out@.take(k as int) =~= way_out@);
            }
            5
        },
    };
    let ghost body = r@;
    let mut k: usize = 0;
    while k < n
        invariant
            k <= n,
            r@ == body + repeat(h, k as nat),
        decreases n - k,
    {
        r.push(h);
        k += 1;
        proof {
            assert(r@ =~= body + repeat(h, k as nat));
        }
    }
    proof {
        assert(head =~= seq!['F', ((i + 1) + 48) as char]);
        assert(r@ =~= title_text(i as int, focused, state, file@));
    }
    r
}

} // verus!
