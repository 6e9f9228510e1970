use minerva::text::{chars_of, is_whitespace, trim};

#[test]
fn whitespace_matches_std_on_every_char() {
    for v in 0u32..=0x10FFFF {
        if let Some(c) = char::from_u32(v) {
            assert_eq!(is_whitespace(c), c.is_whitespace(), "{:?}", c);
        }
    }
}

#[test]
fn trim_matches_std() {
    for s in ["", "  ", " a ", "\u{3000}x y\u{85}", "/quit", "\t/quit\n", "é  "] {
        assert_eq!(trim(s), s.trim());
    }
}

#[test]
fn chars_in_order() {
    assert_eq!(chars_of("añ你"), vec!['a', 'ñ', '你']);
    assert!(chars_of("").is_empty());
}
