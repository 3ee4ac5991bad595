use citestage::text::{
    decimal, first_words, join, lines, string_of, tokenize, trim, words,
};

#[test]
fn tokenize_lowercases_and_drops_single_bytes() {
    assert_eq!(
        tokenize("Hello, World! a b2 x_y"),
        vec!["hello".to_string(), "world".to_string(), "b2".to_string()]
    );
}

#[test]
fn tokenize_keeps_single_non_ascii_letters() {
    assert_eq!(tokenize("é a ÉCOLE"), vec!["é".to_string(), "école".to_string()]);
}

#[test]
fn tokenize_empty_text() {
    assert!(tokenize("").is_empty());
    assert!(tokenize("  -- ,, ").is_empty());
}

#[test]
fn tokens_are_lowercased_whole() {
    assert_eq!(tokenize("CiteStage ΣΑΣ"), vec!["citestage".to_string(), "σας".to_string()]);
}

#[test]
fn lines_follow_std_rules() {
    assert_eq!(lines("a\r\nb\n\nc\n"), vec!["a", "b", "", "c"]);
    assert_eq!(lines("x\r"), vec!["x\r"]);
    assert!(lines("").is_empty());
}

#[test]
fn trim_removes_unicode_whitespace() {
    assert_eq!(trim("\u{a0} \t hello world \n").as_str(), "hello world");
    assert_eq!(trim("   ").as_str(), "");
}

#[test]
fn words_and_first_words() {
    assert_eq!(words(" one  two\tthree\n"), vec!["one", "two", "three"]);
    assert_eq!(first_words("a b c d", 2).as_str(), "a b");
    assert_eq!(first_words("a b", 5).as_str(), "a b");
}

#[test]
fn join_and_decimal() {
    let parts = vec!["x".to_string(), "y".to_string(), "z".to_string()];
    assert_eq!(join(&parts, ", ").as_str(), "x, y, z");
    assert_eq!(join(&Vec::new(), ", ").as_str(), "");
    assert_eq!(decimal(0).as_str(), "0");
    assert_eq!(decimal(907).as_str(), "907");
    assert_eq!(decimal(usize::MAX), usize::MAX.to_string());
}

#[test]
fn string_of_builds_from_chars() {
    assert_eq!(string_of(&vec!['a', 'é', '1']).as_str(), "aé1");
}

#[test]
fn tokens_split_at_a_separator_concatenate() {
    let a = "Alpha beta-7";
    let b = "GAMMA x delta";
    let joined = format!("{}|{}", a, b);
    let mut expected = tokenize(a);
    expected.extend(tokenize(b));
    assert_eq!(tokenize(&joined), expected);
    assert_eq!(expected, vec!["alpha", "beta", "gamma", "delta"]);
}

#[test]
fn ascii_tokens_are_lowercase_and_stable() {
    let s = "The QUICK brown-fox, 42 x jumps_over 7z!";
    let tokens = tokenize(s);
    assert_eq!(tokens, vec!["the", "quick", "brown", "fox", "42", "jumps", "over", "7z"]);
    for t in &tokens {
        assert!(t.len() >= 2);
        assert!(t.bytes().all(|b| b.is_ascii_lowercase() || b.is_ascii_digit()));
    }
    assert_eq!(tokenize(&join(&tokens, " ")), tokens);
}

#[test]
fn whitespace_includes_unicode_spaces() {
    assert_eq!(words("a\u{3000}b\u{2009}c\u{85}d"), vec!["a", "b", "c", "d"]);
    assert_eq!(words("a\u{200b}b"), vec!["a\u{200b}b"]);
}
