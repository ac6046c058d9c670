use thane::text::{decimal_string, split_words, trim_str};

#[test]
fn trim_matches_std() {
    for s in ["  a b  ", "\t\nx\u{3000}", "", "   ", "\u{85}q\u{a0}", "no-space"] {
        assert_eq!(trim_str(s), s.trim());
    }
}

#[test]
fn words_match_split_whitespace() {
    for s in ["  a b  c", "", "one", "\ta\u{2003}b\n"] {
        let expected: Vec<String> = s.split_whitespace().map(|w| w.to_string()).collect();
        assert_eq!(split_words(s), expected);
    }
}

#[test]
fn decimal_text() {
    assert_eq!(decimal_string(0), "0");
    assert_eq!(decimal_string(u64::MAX), u64::MAX.to_string());
}
