use calf::text::{chars_of, is_white_space, slice_equals, strip_dashes};

#[test]
fn strip_dashes_removes_every_dash() {
    assert_eq!(strip_dashes("069a79f4-44e9-4726-a5be-fca90e38aaf5"), "069a79f444e94726a5befca90e38aaf5");
    assert_eq!(strip_dashes("--"), "");
    assert_eq!(strip_dashes("abc"), "abc");
}

#[test]
fn slice_equals_compares_a_window() {
    let v = ['a', 'u', 'u', 'i', 'd', 'b'];
    assert!(slice_equals(&v, 1, 5, &['u', 'u', 'i', 'd']));
    assert!(!slice_equals(&v, 0, 4, &['u', 'u', 'i', 'd']));
    assert!(slice_equals(&v, 2, 2, &[]));
}

#[test]
fn white_space_follows_unicode() {
    for c in [' ', '\t', '\n', '\u{000B}', '\u{000C}', '\r', '\u{0085}', '\u{00A0}', '\u{1680}', '\u{2000}', '\u{200A}', '\u{2028}', '\u{2029}', '\u{202F}', '\u{205F}', '\u{3000}'] {
        assert!(is_white_space(c));
        assert_eq!(is_white_space(c), c.is_whitespace());
    }
    for c in ['a', '\u{200B}', '\u{FEFF}', '_', '\u{180E}'] {
        assert!(!is_white_space(c));
        assert_eq!(is_white_space(c), c.is_whitespace());
    }
}

#[test]
fn chars_of_keeps_order() {
    assert_eq!(chars_of("héllo"), vec!['h', 'é', 'l', 'l', 'o']);
}
