use launcher_bootstrap::text::{
    chars_of, contains, decimal_text, find_from, matches_at, replace_all, same_text,
};

#[test]
fn chars_of_keeps_every_character_in_order() {
    assert_eq!(chars_of("a\"\u{e9}\n"), vec!['a', '"', '\u{e9}', '\n']);
    assert_eq!(chars_of(""), Vec::<char>::new());
}

#[test]
fn matches_at_compares_the_whole_pattern() {
    let text = chars_of("env_dir: \"\"");
    assert!(matches_at(&text, &chars_of("env"), 0));
    assert!(matches_at(&text, &chars_of("dir"), 4));
    assert!(!matches_at(&text, &chars_of("dix"), 4));
    assert!(matches_at(&text, &chars_of(""), 11));
}

#[test]
fn find_from_gives_the_first_position_behind_the_start() {
    let text = chars_of("abcabc");
    let pat = chars_of("bc");
    assert_eq!(find_from(&text, &pat, 0), Some(1));
    assert_eq!(find_from(&text, &pat, 1), Some(1));
    assert_eq!(find_from(&text, &pat, 2), Some(4));
    assert_eq!(find_from(&text, &pat, 5), None);
    assert_eq!(find_from(&text, &pat, 6), None);
    assert_eq!(find_from(&text, &chars_of("abcabcd"), 0), None);
}

#[test]
fn contains_finds_a_pattern_anywhere() {
    assert!(contains("aarch64", "aarch"));
    assert!(contains("armv7", "arm"));
    assert!(contains("x86_64", "x86"));
    assert!(contains("x86_64", "_64"));
    assert!(!contains("x86_64", "arm"));
    assert!(!contains("x8", "x86"));
    assert!(contains("anything", ""));
    assert!(contains("", ""));
    assert!(!contains("", "a"));
}

#[test]
fn replace_all_rewrites_every_occurrence_from_the_left() {
    assert_eq!(replace_all("a-b-c", "-", "+"), "a+b+c");
    assert_eq!(replace_all("aaa", "aa", "b"), "ba");
    assert_eq!(replace_all("aaaa", "aa", "b"), "bb");
    assert_eq!(replace_all("abc", "abc", ""), "");
    assert_eq!(replace_all("abc", "x", "y"), "abc");
    assert_eq!(replace_all("", "x", "y"), "");
    assert_eq!(replace_all("xx", "x", "xx"), "xxxx");
    assert_eq!(replace_all("h\u{e9}llo", "\u{e9}", "e"), "hello");
}

#[test]
fn replace_all_agrees_with_the_standard_library() {
    let texts = ["luncher:\n  env_dir: \"\"\n", "abababa", "", "env_dir: \"\"env_dir: \"\""];
    let patterns = ["env_dir: \"\"", "aba", "b", "\n"];
    for text in texts {
        for pattern in patterns {
            assert_eq!(replace_all(text, pattern, "<>"), text.replace(pattern, "<>"));
        }
    }
}

#[test]
fn replace_all_leaves_the_text_alone_for_an_empty_pattern() {
    assert_eq!(replace_all("abc", "", "-"), "abc");
}

#[test]
fn same_text_is_equality_of_characters() {
    assert!(same_text("linux", "linux"));
    assert!(!same_text("linux", "Linux"));
    assert!(!same_text("linux", "linu"));
    assert!(!same_text("linu", "linux"));
    assert!(same_text("", ""));
}

#[test]
fn decimal_text_writes_integers_as_the_standard_library_does() {
    assert_eq!(decimal_text(0), "0");
    assert_eq!(decimal_text(7), "7");
    assert_eq!(decimal_text(10), "10");
    assert_eq!(decimal_text(1203), "1203");
    assert_eq!(decimal_text(-1), "-1");
    assert_eq!(decimal_text(-130), "-130");
    assert_eq!(decimal_text(i32::MAX), "2147483647");
    assert_eq!(decimal_text(i32::MIN), "-2147483648");
    for n in [-1000, -99, -10, -9, 9, 99, 100, 65535] {
        assert_eq!(decimal_text(n), n.to_string());
    }
}
