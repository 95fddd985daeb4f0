use notify_api::text::{join_texts, split_trimmed_parts, text_contains, trim_str, trimmed};

#[test]
fn trim_uses_unicode_white_space() {
    assert_eq!(trim_str("\u{a0}\t abc \u{3000}\n"), "abc");
    assert_eq!(trim_str("   "), "");
    assert_eq!(trimmed(" a b "), "a b");
    assert_eq!(trim_str(trim_str(" x ")), trim_str(" x "));
}

#[test]
fn split_drops_empty_parts() {
    assert_eq!(split_trimmed_parts("a, b ,,c,", ','), vec!["a".to_string(), "b".to_string(), "c".to_string()]);
    assert!(split_trimmed_parts(" , ", ',').is_empty());
}

#[test]
fn contains_and_join() {
    assert!(text_contains("is blocked by", "blocked"));
    assert!(!text_contains("exceeded", "blocked"));
    assert!(text_contains("x", ""));
    assert_eq!(join_texts(&vec!["a".to_string(), "b".to_string()], ", "), "a, b");
    assert_eq!(join_texts(&vec![], ", "), "");
}
