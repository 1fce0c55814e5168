use allrisbot::text::{
    ascii_lowercase, count_utf16, decimal_string, ends_with_char, find, is_listed, is_text_before,
    is_white_space, join, parse_number, signed_decimal_string, split, split_once, strip_prefix,
    trim,
};

#[test]
fn numbers() {
    for n in [0, 7, 10, 99, 100, 4096, u64::MAX] {
        assert_eq!(decimal_string(n), n.to_string());
        assert_eq!(parse_number(&decimal_string(n)), Some(n));
    }
    for i in [0, -1, 5, i64::MIN, i64::MAX] {
        assert_eq!(signed_decimal_string(i), i.to_string());
    }
    for s in ["", "x", "-1", "+", "+5", "007", "18446744073709551616", " 1"] {
        assert_eq!(parse_number(s), s.parse::<u64>().ok(), "{s:?}");
    }
}

#[test]
fn utf16() {
    for s in ["", "abc", "äöü", "🏛\u{fe0f}", "a🙂b"] {
        assert_eq!(count_utf16(s), s.encode_utf16().count());
    }
}

#[test]
fn parts() {
    assert_eq!(strip_prefix("Vorlage 12", "Vorlage "), Some("12"));
    assert_eq!(strip_prefix("Vor", "Vorlage "), None);
    assert_eq!(find("a-b-c", '-'), Some(1));
    assert_eq!(find("abc", '-'), None);
    assert_eq!(split_once("ä-b-c", '-'), Some(("ä", "b-c")));
    assert_eq!(split_once("abc", '-'), None);
    for s in ["", ";", "a;b", "a;;b;", "äö; ü"] {
        assert_eq!(split(s, ';'), s.split(';').collect::<Vec<_>>());
    }
    assert_eq!(join(&vec!["a".to_owned(), "b".to_owned(), "c".to_owned()], " | "), "a | b | c");
    assert_eq!(join(&vec![], "x"), "");
    assert!(ends_with_char("a/", '/'));
    assert!(!ends_with_char("", '/'));
    assert!(is_listed(&["a", "b"], "b"));
    assert!(!is_listed(&["a", "b"], "c"));
}

#[test]
fn white_space() {
    for s in ["", "  ", " a b ", "\u{a0}x\u{2003}", "\n\tä\r", "x"] {
        assert_eq!(trim(s), s.trim(), "{s:?}");
    }
    for c in '\u{0}'..='\u{ffff}' {
        assert_eq!(is_white_space(c), c.is_whitespace(), "{c:?}");
    }
    assert_eq!(ascii_lowercase("ABC-äÖ"), "ABC-äÖ".to_ascii_lowercase());
}

#[test]
fn order() {
    let texts = ["", "1", "10", "2", "9", "a", "ab", "b", "ä", "🙂"];
    for a in texts {
        for b in texts {
            assert_eq!(is_text_before(a, b), a < b, "{a:?} {b:?}");
        }
    }
}
