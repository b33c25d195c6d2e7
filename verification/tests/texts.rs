use gettext_macros::text::{
    chars_of, contains, copy_texts, join2, join3, push_decimal, str_eq, without_quotes,
};

#[test]
fn parts_are_found() {
    assert!(contains("abcd", "bc"));
    assert!(contains("abcd", "abcd"));
    assert!(contains("abcd", ""));
    assert!(contains("", ""));
    assert!(contains("aab", "ab"));
    assert!(contains("héé", "é"));
    assert!(!contains("abcd", "ca"));
    assert!(!contains("abc", "abcd"));
    assert!(!contains("", "a"));
}

#[test]
fn quotes_are_taken_out() {
    assert_eq!(without_quotes("\"my_app\""), "my_app");
    assert_eq!(without_quotes("\"\""), "");
    assert_eq!(without_quotes("r#\"é\"#"), "r#é#");
    assert_eq!(without_quotes("42"), "42");
}

#[test]
fn numbers_are_written_in_decimal() {
    let mut out = String::from("n=");
    push_decimal(&mut out, 0);
    out.push(' ');
    push_decimal(&mut out, 9);
    out.push(' ');
    push_decimal(&mut out, 10);
    out.push(' ');
    push_decimal(&mut out, 1234567890);
    assert_eq!(out, "n=0 9 10 1234567890");
}

#[test]
fn strings_are_joined_and_compared() {
    assert_eq!(join2("a", "b"), "ab");
    assert_eq!(join3("a", "b", "c"), "abc");
    assert!(str_eq("a", "a"));
    assert!(!str_eq("a", "b"));
    assert_eq!(chars_of("aé"), vec!['a', 'é']);
    assert_eq!(copy_texts(&["a".to_string()]), vec!["a".to_string()]);
}
