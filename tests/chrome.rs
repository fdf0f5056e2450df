use swim::chrome::{border_char, title, FRAME_BOTTOM, FRAME_RIGHT};
use swim::window::WindowState;

#[test]
fn focused_frame_uses_double_lines() {
    assert_eq!(border_char(true, 0, 0), Some(201u8 as char));
    assert_eq!(border_char(true, FRAME_RIGHT, 0), Some(187u8 as char));
    assert_eq!(border_char(true, 0, FRAME_BOTTOM), Some(200u8 as char));
    assert_eq!(border_char(true, FRAME_RIGHT, FRAME_BOTTOM), Some(188u8 as char));
    assert_eq!(border_char(true, 1, 0), Some(205u8 as char));
    assert_eq!(border_char(true, 10, FRAME_BOTTOM), Some(205u8 as char));
    assert_eq!(border_char(true, 0, 4), Some(186u8 as char));
}

#[test]
fn unfocused_frame_uses_single_lines() {
    assert_eq!(border_char(false, 0, 0), Some(218u8 as char));
    assert_eq!(border_char(false, FRAME_RIGHT, FRAME_BOTTOM), Some(217u8 as char));
    assert_eq!(border_char(false, FRAME_RIGHT, 3), Some(179u8 as char));
    assert_eq!(border_char(false, 2, 0), Some(196u8 as char));
}

#[test]
fn frame_leaves_title_and_interior_alone() {
    assert_eq!(border_char(true, 3, 0), None);
    assert_eq!(border_char(true, 5, 5), None);
    assert_eq!(border_char(false, FRAME_RIGHT + 1, 0), None);
}

#[test]
fn listing_title() {
    let t: String = title(0, true, WindowState::Listing, &[0u8; 10]).into_iter().collect();
    let bar: String = std::iter::repeat(205u8 as char).take(16).collect();
    assert_eq!(t, format!("F1 (e)dit (r)un{}", bar));
    assert_eq!(t.chars().count(), FRAME_RIGHT - 3);
}

#[test]
fn running_title() {
    let mut name = [0u8; 10];
    name[..2].copy_from_slice(b"pi");
    let t: Vec<char> = title(2, false, WindowState::Running, &name);
    assert_eq!(t.len(), FRAME_RIGHT - 3);
    let s: String = t.iter().collect();
    assert!(s.starts_with("F3 pi\0"));
    assert!(s.contains(" (F6 to exit)"));
    assert_eq!(t[t.len() - 1], 196u8 as char);
}
