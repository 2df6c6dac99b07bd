use dayweave_api::text::{is_blank, is_control, is_white_space, longer_than};

#[test]
fn character_classes_agree_with_the_standard_library() {
    for c in '\0'..=char::MAX {
        assert_eq!(is_control(c), c.is_control());
        assert_eq!(is_white_space(c), c.is_whitespace());
    }
    assert!(is_blank(" \t\u{3000}"));
    assert!(!is_blank(" a "));
    assert!(longer_than("abc", 2));
    assert!(!longer_than("äöü", 3));
}
