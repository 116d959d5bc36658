use parking_escape::text::{
    ascii_lower, chars_eq, chars_of, decimal_chars, is_ws, occurs_at_exec, replace_all,
    string_from_chars, trim_chars,
};

fn s(x: &str) -> Vec<char> {
    x.chars().collect()
}

#[test]
fn whitespace_matches_std() {
    for c in ['\t', '\n', ' ', '\r', '\u{A0}', '\u{2003}', '\u{3000}', '\u{85}', '\u{205F}'] {
        assert!(is_ws(c));
        assert_eq!(is_ws(c), c.is_whitespace());
    }
    for c in ['a', '-', '_', '0', '\u{200B}', '\u{FEFF}'] {
        assert!(!is_ws(c));
        assert_eq!(is_ws(c), c.is_whitespace());
    }
}

#[test]
fn ascii_lowercase() {
    assert_eq!(ascii_lower('A'), 'a');
    assert_eq!(ascii_lower('Z'), 'z');
    assert_eq!(ascii_lower('z'), 'z');
    assert_eq!(ascii_lower('Ä'), 'Ä');
    assert_eq!(ascii_lower('-'), '-');
}

#[test]
fn chars_round_trip() {
    let v = chars_of("héllo 語");
    assert_eq!(v, s("héllo 語"));
    assert_eq!(string_from_chars(&v), "héllo 語");
    assert_eq!(string_from_chars(&[]), "");
}

#[test]
fn trimming_matches_std() {
    for t in ["  ab c \n", "abc", "", "   ", "\u{3000}x\u{A0}"] {
        assert_eq!(string_from_chars(&trim_chars(&s(t))), t.trim());
    }
}

#[test]
fn pattern_search_and_replace() {
    assert!(occurs_at_exec(&s("a{id}b"), &s("{id}"), 1));
    assert!(!occurs_at_exec(&s("a{id}b"), &s("{id}"), 0));
    assert!(!occurs_at_exec(&s("a{id"), &s("{id}"), 1));
    assert!(chars_eq(&s("abc"), &s("abc")));
    assert!(!chars_eq(&s("abc"), &s("abd")));
    assert!(!chars_eq(&s("abc"), &s("ab")));
    assert_eq!(replace_all(&s("x{id}y{id}"), &s("{id}"), &s("42")), s("x42y42"));
    assert_eq!(replace_all(&s("aaa"), &s("aa"), &s("b")), s("ba"));
    assert_eq!(replace_all(&s("none"), &s("{id}"), &s("1")), s("none"));
    for (t, p, r) in [("{a}{a}{", "{a}", "xyz"), ("abab", "ab", ""), ("", "x", "y")] {
        assert_eq!(replace_all(&s(t), &s(p), &s(r)), s(&t.replace(p, r)));
    }
}

#[test]
fn decimal_digits() {
    assert_eq!(decimal_chars(0), s("0"));
    assert_eq!(decimal_chars(7), s("7"));
    assert_eq!(decimal_chars(1234567890), s("1234567890"));
    assert_eq!(decimal_chars(u64::MAX), s(&u64::MAX.to_string()));
}
