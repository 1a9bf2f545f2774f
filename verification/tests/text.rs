use flowchart::text::{chars_of, is_whitespace_char, str_begins_with, str_contains, trimmed};

#[test]
fn contains_and_begins_with() {
    assert!(str_contains("hypotheses", "hypothes"));
    assert!(str_contains("abc", ""));
    assert!(!str_contains("ab", "abc"));
    assert!(str_contains("héllo wörld", "ö"));
    assert!(str_begins_with("📅 2024-01-01", "📅"));
    assert!(!str_begins_with("x", "xy"));
}

#[test]
fn trimming_matches_std() {
    for s in ["  a b  ", "\u{2003}x\u{2029}", "", "   ", "\u{85}q\u{200b}"] {
        let cs = chars_of(s);
        assert_eq!(trimmed(&cs), s.trim());
    }
    for c in ['\t', ' ', '\u{a0}', '\u{1680}', '\u{200a}', '\u{3000}', 'a', '\u{200b}', '\u{feff}'] {
        assert_eq!(is_whitespace_char(c), c.is_whitespace());
    }
}
