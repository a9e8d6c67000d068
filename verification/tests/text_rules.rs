use goose_input::text::{
    chars_of, ends_with, eq_ignore_ascii_case, eq_str, is_whitespace, split_once,
    split_whitespace, string_of, strip_prefix, to_ascii_lowercase, to_ascii_uppercase, trim,
};

const SAMPLES: [&str; 12] = [
    "",
    " ",
    "  /extension foo bar  ",
    "\u{a0}\u{2003}x\u{3000}",
    "a b\tc\nd",
    "\u{200b}zero width\u{200b}",
    "\u{180e}mongolian\u{180e}",
    "  é  à  ",
    "\r\n\u{85}\u{1680}",
    "key=value=more",
    "=",
    "\u{2028}mixed\u{2029} \u{202f}ends\u{205f}",
];

#[test]
fn white_space_is_that_of_unicode() {
    for code in 0..=0x10FFFFu32 {
        if let Some(c) = char::from_u32(code) {
            assert_eq!(is_whitespace(c), c.is_whitespace(), "U+{:04X}", code);
        }
    }
}

#[test]
fn trimming_takes_white_space_off_both_ends() {
    for s in SAMPLES {
        assert_eq!(trim(s), s.trim());
        assert_eq!(trim(&trim(s)), s.trim());
        assert_eq!(trim(&format!(" \t{s}\u{3000}")), s.trim());
    }
}

#[test]
fn words_are_split_at_white_space() {
    for s in SAMPLES {
        let expected: Vec<&str> = s.split_whitespace().collect();
        assert_eq!(split_whitespace(s), expected);
    }
}

#[test]
fn prefixes_suffixes_and_equality() {
    for s in SAMPLES {
        for t in SAMPLES {
            assert_eq!(eq_str(s, t), s == t);
            assert_eq!(strip_prefix(s, t), s.strip_prefix(t).map(String::from));
            assert_eq!(ends_with(s, t), s.ends_with(t));
        }
    }
    assert_eq!(strip_prefix("/t light", "/t "), Some("light".to_string()));
    assert_eq!(strip_prefix("/t", "/t "), None);
    assert!(ends_with("a.yaml", ".yaml"));
}

#[test]
fn pairs_are_split_at_the_first_mark() {
    assert_eq!(
        split_once("key=value=more", '='),
        Some(("key".to_string(), "value=more".to_string()))
    );
    assert_eq!(split_once("=", '='), Some((String::new(), String::new())));
    assert_eq!(split_once("none", '='), None);
}

#[test]
fn ascii_case() {
    for code in 0..0x250u32 {
        if let Some(c) = char::from_u32(code) {
            assert_eq!(to_ascii_lowercase(c), c.to_ascii_lowercase());
            assert_eq!(to_ascii_uppercase(c), c.to_ascii_uppercase());
        }
    }
    assert!(eq_ignore_ascii_case("eXiT", "exit"));
    assert!(!eq_ignore_ascii_case("exits", "exit"));
    assert!(!eq_ignore_ascii_case("É", "é"));
}

#[test]
fn characters_and_back() {
    for s in SAMPLES {
        let v = chars_of(s);
        assert_eq!(v, s.chars().collect::<Vec<char>>());
        assert_eq!(string_of(&v, 0, v.len()), s);
    }
    assert_eq!(string_of(&chars_of("héllo"), 1, 3), "él");
}
