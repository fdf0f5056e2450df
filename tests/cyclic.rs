use swim::glyph::{displayed, is_drawable};
use swim::{add1, safe_add, sub1};

#[test]
fn safe_add_wraps_around() {
    assert_eq!(safe_add::<4>(3, 2), 1);
    assert_eq!(safe_add::<4>(1, 2), 3);
    assert_eq!(safe_add::<30>(29, 31), 0);
}

#[test]
fn add1_wraps_to_zero() {
    assert_eq!(add1::<4>(2), 3);
    assert_eq!(add1::<4>(3), 0);
}

#[test]
fn sub1_wraps_to_last() {
    assert_eq!(sub1::<4>(0), 3);
    assert_eq!(sub1::<4>(3), 2);
    assert_eq!(sub1::<30>(5), 4);
}

#[test]
fn drawable_characters() {
    assert!(is_drawable('a'));
    assert!(is_drawable(' '));
    assert!(is_drawable('~'));
    assert!(!is_drawable('\0'));
    assert!(!is_drawable('\n'));
    assert!(!is_drawable('\u{7f}'));
    assert_eq!(displayed('q'), 'q');
    assert_eq!(displayed('\0'), ' ');
}
