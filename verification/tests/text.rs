use pls_reply::text::{
    chars_of, push_decimal, replace_str, starts_with, str_eq, string_from_chars, suffix_from,
    to_ascii_lower, trimmed,
};

#[test]
fn trimming_follows_unicode_whitespace() {
    assert_eq!(trimmed("  a b \n"), "a b");
    assert_eq!(trimmed("\u{2003}x\u{85}"), "x");
    assert_eq!(trimmed(" \t "), "");
    assert_eq!(trimmed("é"), "é");
}

#[test]
fn ascii_lowering_keeps_other_characters() {
    assert_eq!(to_ascii_lower("OpenAI_Ünï"), "openai_Ünï");
}

#[test]
fn decimals() {
    let mut s = String::from("n=");
    push_decimal(&mut s, 0);
    assert_eq!(s, "n=0");
    let mut s = String::new();
    push_decimal(&mut s, 18446744073709551615);
    assert_eq!(s, "18446744073709551615");
}

#[test]
fn replacement_is_left_to_right() {
    assert_eq!(replace_str("aaa", "aa", "b"), "ba");
    assert_eq!(replace_str("{os}/{os}", "{os}", "linux"), "linux/linux");
}

#[test]
fn comparisons_and_pieces() {
    assert!(str_eq("ab", "ab"));
    assert!(!str_eq("ab", "abc"));
    assert!(starts_with("--model=x", "--model="));
    assert!(!starts_with("-m", "--model="));
    assert_eq!(suffix_from("--model=gpt", 8), "gpt");
    assert_eq!(string_from_chars(&chars_of("héllo")), "héllo");
}

#[test]
fn whitespace_agrees_with_std() {
    for u in 0u32..=0x10ffff {
        if let Some(c) = char::from_u32(u) {
            assert_eq!(pls_reply::text::is_whitespace(c), c.is_whitespace(), "U+{:04X}", u);
        }
    }
}
