use forge::text::{
    chars_of, strcat, join_path, join_texts, push_decimal, same_text, split_whitespace, trim,
};

#[test]
fn trim_removes_unicode_white_space() {
    assert_eq!(trim("  y\n"), "y");
    assert_eq!(trim("\u{3000}\tword\u{a0}"), "word");
    assert_eq!(trim(" \n "), "");
    assert_eq!(trim("a b"), "a b");
}

#[test]
fn split_whitespace_gives_words() {
    assert_eq!(split_whitespace("make  install -j4"), vec!["make", "install", "-j4"]);
    assert_eq!(split_whitespace("  "), Vec::<String>::new());
    assert_eq!(split_whitespace(""), Vec::<String>::new());
    assert_eq!(split_whitespace("a\u{2003}b\u{85}c"), vec!["a", "b", "c"]);
    let expected: Vec<String> = "x\ty  z ".split_whitespace().map(|s| s.to_string()).collect();
    assert_eq!(split_whitespace("x\ty  z "), expected);
}

#[test]
fn decimal_numerals() {
    for (n, t) in [(0usize, "0"), (7, "7"), (10, "10"), (12345, "12345"), (usize::MAX, "18446744073709551615")] {
        let mut s = String::from("n=");
        push_decimal(&mut s, n);
        assert_eq!(s, format!("n={}", t));
    }
}

#[test]
fn path_joining_follows_path_buf() {
    assert_eq!(join_path("/var/db/forge", "pkg"), "/var/db/forge/pkg");
    assert_eq!(join_path("/var/db/forge/", "pkg"), "/var/db/forge/pkg");
    assert_eq!(join_path("/var/db/forge", "/etc/x"), "/etc/x");
    assert_eq!(join_path("/var/db/forge", ""), "/var/db/forge/");
    for (b, p) in [("/a", "b"), ("/a/", "b"), ("/a", "/b"), ("/a", ""), ("", "b")] {
        let expected = std::path::PathBuf::from(b).join(p);
        assert_eq!(join_path(b, p), expected.to_str().unwrap());
    }
}

#[test]
fn small_string_helpers() {
    assert_eq!(chars_of("héllo"), vec!['h', 'é', 'l', 'l', 'o']);
    assert_eq!(strcat("ab", "cd"), "abcd");
    assert!(same_text("abc", "abc"));
    assert!(!same_text("abc", "abd"));
    let parts = vec!["a".to_string(), "b".to_string(), "c".to_string()];
    assert_eq!(join_texts(&parts, ", "), "a, b, c");
    assert_eq!(join_texts(&Vec::new(), ", "), "");
}
