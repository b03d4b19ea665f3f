use oncall_ai::text::{decimal, join, place, split_at_colon, truncate_utf8, Placed};

#[test]
fn truncate_utf8_rounds_down_to_a_char_boundary() {
    // 'é' is two bytes: a cut inside it must round down, not panic.
    assert_eq!(truncate_utf8("aé", 2), "a");
    assert_eq!(truncate_utf8("aé", 3), "aé");
    assert_eq!(truncate_utf8("abc", 10), "abc");
    assert_eq!(truncate_utf8("", 5), "");
}

#[test]
fn truncation_never_splits_a_wide_character() {
    // U+1F980 takes four bytes.
    for limit in 0..4 {
        assert_eq!(truncate_utf8("🦀x", limit), "");
    }
    assert_eq!(truncate_utf8("🦀x", 4), "🦀");
    assert_eq!(truncate_utf8("🦀x", 5), "🦀x");
}

#[test]
fn text_is_ordered_by_its_bytes() {
    assert!(place("a", "b") == Placed::Before);
    assert!(place("b", "a") == Placed::After);
    assert!(place("same", "same") == Placed::Same);
    assert!(place("", "a") == Placed::Before);
    assert!(place("ab", "a") == Placed::After);
    assert!(place("Z", "a") == Placed::Before);
    assert!(place("z", "é") == Placed::Before);
}

#[test]
fn a_text_is_split_at_its_first_colon() {
    assert_eq!(split_at_colon("ollama:qwen3:8b"), Some(("ollama", "qwen3:8b")));
    assert_eq!(split_at_colon(":x"), Some(("", "x")));
    assert_eq!(split_at_colon("é:"), Some(("é", "")));
    assert_eq!(split_at_colon("none"), None);
    assert_eq!(split_at_colon(""), None);
}

#[test]
fn numbers_are_written_in_decimal() {
    assert_eq!(decimal(0), "0");
    assert_eq!(decimal(9), "9");
    assert_eq!(decimal(10), "10");
    assert_eq!(decimal(1_048_576), "1048576");
    assert_eq!(decimal(u64::MAX), "18446744073709551615");
}

#[test]
fn texts_are_joined_with_the_separator_between_them() {
    let parts = |texts: &[&str]| texts.iter().map(|t| (*t).to_owned()).collect::<Vec<String>>();
    assert_eq!(join(&parts(&[]), ", "), "");
    assert_eq!(join(&parts(&["one"]), ", "), "one");
    assert_eq!(join(&parts(&["one", "two", "three"]), ", "), "one, two, three");
}
