use controlnix::text::{
    chars_of, join_from, lines, push_decimal, same_text, split, split_whitespace, trim, white_space,
    Separator,
};

fn strings(v: &[&str]) -> Vec<String> {
    v.iter().map(|s| s.to_string()).collect()
}

#[test]
fn chars_of_keeps_every_character() {
    assert_eq!(chars_of("aé b"), vec!['a', 'é', ' ', 'b']);
    assert_eq!(chars_of(""), Vec::<char>::new());
}

#[test]
fn white_space_is_unicode_white_space() {
    for c in [' ', '\t', '\n', '\r', '\u{b}', '\u{c}', '\u{85}', '\u{a0}', '\u{2003}', '\u{3000}'] {
        assert!(white_space(c));
        assert_eq!(white_space(c), c.is_whitespace());
    }
    for c in ['a', '-', ':', '\u{200b}', '0'] {
        assert!(!white_space(c));
    }
    for u in 0u32..0x3100 {
        if let Some(c) = char::from_u32(u) {
            assert_eq!(white_space(c), c.is_whitespace(), "{:x}", u);
        }
    }
}

#[test]
fn trim_matches_str_trim() {
    for s in ["  50 \n", "on", "", "   ", "\u{a0}x y\u{3000}", "\t\r\n42%\n"] {
        assert_eq!(trim(s), s.trim());
    }
}

#[test]
fn split_keeps_empty_pieces() {
    assert_eq!(split("yes:Home", Separator::Char(':')), strings(&["yes", "Home"]));
    assert_eq!(split("a::b:", Separator::Char(':')), strings(&["a", "", "b", ""]));
    assert_eq!(split("", Separator::Char(':')), strings(&[""]));
    assert_eq!(split("a\\:b:c", Separator::Char(':')), strings(&["a\\", "b", "c"]));
}

#[test]
fn split_whitespace_drops_empty_pieces() {
    for s in ["Device AA:BB My  Phone", "  a\tb \n c  ", "", "   ", "x"] {
        let expected: Vec<String> = s.split_whitespace().map(|w| w.to_string()).collect();
        assert_eq!(split_whitespace(s), expected);
    }
}

#[test]
fn lines_match_str_lines() {
    for s in ["a\nb", "a\n", "a\n\n", "\n", "", "a\r\nb\r\n", "a\r", "x\ry\nz", "\r\n"] {
        let expected: Vec<String> = s.lines().map(|l| l.to_string()).collect();
        assert_eq!(lines(s), expected, "{:?}", s);
    }
}

#[test]
fn decimal_rendering_matches_format() {
    for n in 0u8..=255 {
        let mut s = String::from("v=");
        push_decimal(&mut s, n);
        assert_eq!(s, format!("v={}", n));
    }
}

#[test]
fn join_from_puts_single_spaces() {
    let parts = strings(&["Device", "AA", "My", "Phone", "X"]);
    assert_eq!(join_from(&parts, 2), "My Phone X");
    assert_eq!(join_from(&parts, 4), "X");
    assert_eq!(join_from(&parts, 5), "");
}

#[test]
fn same_text_compares_characters() {
    assert!(same_text("on", "on"));
    assert!(!same_text("on", "off"));
    assert!(!same_text("on", "o"));
    assert!(same_text("", ""));
}
