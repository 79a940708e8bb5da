use memguard::text::{contains, decimal_text, join, split};

fn chars(s: &str) -> Vec<char> {
    s.chars().collect()
}

#[test]
fn search_in_characters() {
    assert!(contains(&chars("abcabd"), &chars("abd")));
    assert!(!contains(&chars("abcab"), &chars("abd")));
    assert!(contains(&chars("x"), &chars("")));
    assert!(contains(&chars(""), &chars("")));
    assert!(!contains(&chars(""), &chars("x")));
}

#[test]
fn split_and_join() {
    assert_eq!(split(&chars("a,,b"), ','), vec![chars("a"), chars(""), chars("b")]);
    assert_eq!(split(&chars(""), ','), vec![chars("")]);
    let parts: Vec<String> = vec!["a".to_string(), "".to_string(), "b".to_string()];
    assert_eq!(join(&parts, ","), "a,,b");
    assert_eq!(join(&Vec::new(), ","), "");
}

#[test]
fn decimal_notation() {
    assert_eq!(decimal_text(0), "0");
    assert_eq!(decimal_text(9), "9");
    assert_eq!(decimal_text(10), "10");
    assert_eq!(decimal_text(u64::MAX), "18446744073709551615");
}
