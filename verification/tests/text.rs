use spores::text::{
    char_is_whitespace, chars_of, contains_text, cut, decimal_len, next_word, push_decimal,
    push_zero_padded, same_text, scan, scan_back, trim_bounds, CharClass,
};

fn decimal(n: u64) -> String {
    let mut out = String::new();
    push_decimal(&mut out, n);
    out
}

fn padded(n: u64, width: usize) -> String {
    let mut out = String::new();
    push_zero_padded(&mut out, n, width);
    out
}

#[test]
fn numbers_in_decimal() {
    for n in [0u64, 1, 9, 10, 11, 99, 100, 101, 12345, 4294967295, u64::MAX] {
        assert_eq!(decimal(n), n.to_string());
        assert_eq!(decimal_len(n), n.to_string().len());
    }
    let mut out = "n=".to_string();
    push_decimal(&mut out, 70);
    assert_eq!(out, "n=70");
}

#[test]
fn numbers_with_zeros_in_front() {
    assert_eq!(padded(7, 0), "7");
    assert_eq!(padded(7, 1), "7");
    assert_eq!(padded(7, 3), "007");
    assert_eq!(padded(0, 2), "00");
    assert_eq!(padded(123, 3), "123");
    assert_eq!(padded(1234, 3), "1234");
    assert_eq!(padded(u64::MAX, 23), "00018446744073709551615");
    let mut out = "t".to_string();
    push_zero_padded(&mut out, 5, 2);
    assert_eq!(out, "t05");
}

#[test]
fn white_space_is_what_the_standard_library_says() {
    let mut c = 0u32;
    while c <= 0x3100 {
        if let Some(ch) = char::from_u32(c) {
            assert_eq!(char_is_whitespace(ch), ch.is_whitespace(), "U+{c:04X}");
        }
        c += 1;
    }
    assert!(!char_is_whitespace('\u{feff}'));
    assert!(!char_is_whitespace('\u{200b}'));
    assert!(!char_is_whitespace('\u{10ffff}'));
}

#[test]
fn character_classes() {
    assert!(CharClass::Space.contains(' '));
    assert!(!CharClass::Space.contains('x'));
    assert!(CharClass::Visible.contains('x'));
    assert!(!CharClass::Visible.contains('\n'));
    assert!(CharClass::Except(':').contains('x'));
    assert!(!CharClass::Except(':').contains(':'));
}

#[test]
fn scans_stop_at_the_first_character_outside_the_class() {
    let chars = chars_of("  ab: c  ");
    assert_eq!(chars.len(), 9);
    assert_eq!(scan(&chars, 0, 9, CharClass::Space), 2);
    assert_eq!(scan(&chars, 2, 9, CharClass::Space), 2);
    assert_eq!(scan(&chars, 2, 9, CharClass::Visible), 5);
    assert_eq!(scan(&chars, 0, 9, CharClass::Except(':')), 4);
    assert_eq!(scan(&chars, 0, 3, CharClass::Except(':')), 3);
    assert_eq!(scan(&chars, 0, 9, CharClass::Except('z')), 9);
    assert_eq!(scan(&chars, 9, 9, CharClass::Space), 9);
    assert_eq!(scan_back(&chars, 0, 9, CharClass::Space), 7);
    assert_eq!(scan_back(&chars, 0, 7, CharClass::Space), 7);
    assert_eq!(scan_back(&chars, 0, 7, CharClass::Visible), 6);
    assert_eq!(scan_back(&chars, 8, 9, CharClass::Space), 8);
    assert_eq!(scan_back(&chars, 0, 2, CharClass::Space), 0);
    assert_eq!(scan_back(&chars, 0, 0, CharClass::Space), 0);
}

#[test]
fn trimming_cuts_white_space_at_both_ends() {
    let chars = chars_of("  ab: c  ");
    assert_eq!(trim_bounds(&chars, 0, 9), (2, 7));
    assert_eq!(trim_bounds(&chars, 0, 4), (2, 4));
    assert_eq!(trim_bounds(&chars, 5, 9), (6, 7));
    assert_eq!(trim_bounds(&chars, 7, 9), (9, 9));
    assert_eq!(trim_bounds(&chars, 3, 3), (3, 3));
    let inner = chars_of("a b");
    assert_eq!(trim_bounds(&inner, 0, 3), (0, 3));
}

#[test]
fn words_are_found_one_after_the_other() {
    let chars = chars_of(" one  two three");
    let first = next_word(&chars, 0);
    assert_eq!(first, (1, 4));
    let second = next_word(&chars, first.1);
    assert_eq!(second, (6, 9));
    let third = next_word(&chars, second.1);
    assert_eq!(third, (10, 15));
    assert_eq!(next_word(&chars, third.1), (15, 15));
    assert_eq!(next_word(&chars_of("   "), 0), (3, 3));
}

#[test]
fn characters_and_cuts_count_characters_not_bytes() {
    let s = "a\u{e9}\u{1f600}z";
    assert_eq!(chars_of(s), vec!['a', '\u{e9}', '\u{1f600}', 'z']);
    assert_eq!(chars_of(""), Vec::<char>::new());
    assert_eq!(cut(s, 1, 3), "\u{e9}\u{1f600}");
    assert_eq!(cut(s, 0, 4), s);
    assert_eq!(cut(s, 4, 4), "");
    assert_eq!(cut(s, 2, 2), "");
}

#[test]
fn texts_are_compared_and_searched() {
    assert!(same_text("", ""));
    assert!(same_text("abc", "abc"));
    assert!(!same_text("abc", "abd"));
    assert!(!same_text("abc", "ab"));
    assert!(!same_text("", "a"));
    assert!(contains_text("", ""));
    assert!(contains_text("abc", ""));
    assert!(contains_text("abc", "abc"));
    assert!(contains_text("xxabc", "abc"));
    assert!(contains_text("ababac", "abac"));
    assert!(!contains_text("ab", "abc"));
    assert!(!contains_text("abab", "aba\u{e9}"));
    assert!(!contains_text("", "a"));
}

const SAMPLES: [&str; 12] = [
    "",
    " ",
    "a",
    "  a  ",
    "\t\r\n a b \u{b}\u{c}",
    "\u{a0}x\u{a0}",
    "\u{2003}wide\u{3000}space\u{2009}",
    "no-space",
    " GET  /index.html\tHTTP/1.1\r",
    "\u{1680}\u{85}",
    "x\u{200b}y \u{feff}z",
    "  tr\u{e9}s  bien ",
];

#[test]
fn trimming_agrees_with_the_standard_library() {
    for s in SAMPLES {
        let chars = chars_of(s);
        let (from, to) = trim_bounds(&chars, 0, chars.len());
        assert_eq!(cut(s, from, to), s.trim(), "{s:?}");
    }
}

#[test]
fn words_agree_with_the_standard_library() {
    for s in SAMPLES {
        let chars = chars_of(s);
        let mut words = Vec::new();
        let mut at = 0;
        loop {
            let (from, to) = next_word(&chars, at);
            if from == to {
                break;
            }
            words.push(cut(s, from, to));
            at = to;
        }
        let expected: Vec<String> = s.split_whitespace().map(|w| w.to_string()).collect();
        assert_eq!(words, expected, "{s:?}");
    }
}

#[test]
fn searching_agrees_with_the_standard_library() {
    for s in SAMPLES {
        for part in ["", " ", "a", "x", "GET", "space", "\u{e9}s", "HTTP/1.1\r", "zz"] {
            assert_eq!(contains_text(s, part), s.contains(part), "{s:?} {part:?}");
        }
        for c in [' ', 'a', '/', '\u{a0}', '\u{e9}'] {
            let chars = chars_of(s);
            let at = scan(&chars, 0, chars.len(), CharClass::Except(c));
            let expected = s.chars().position(|x| x == c).unwrap_or(chars.len());
            assert_eq!(at, expected, "{s:?} {c:?}");
        }
    }
}
