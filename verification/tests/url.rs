use memguard::url::{override_url, urlencode};

#[test]
fn unreserved_bytes_stay() {
    assert_eq!(urlencode("AZaz09-_.~"), "AZaz09-_.~");
}

#[test]
fn other_bytes_are_escaped_with_capitals() {
    assert_eq!(urlencode("a b&c=d/?#\n"), "a%20b%26c%3Dd%2F%3F%23%0A");
    assert_eq!(urlencode("\u{0}\u{7f}"), "%00%7F");
    assert_eq!(urlencode("告"), "%E5%91%8A");
    assert_eq!(urlencode("×"), "%C3%97");
    assert_eq!(urlencode(""), "");
}

#[test]
fn base_replaces_scheme_and_keeps_the_rest() {
    assert_eq!(
        override_url(
            "http://127.0.0.1:18099",
            "https://qyapi.weixin.qq.com/cgi-bin/webhook/send",
            "?key=fakekey123"
        ),
        "http://127.0.0.1:18099/qyapi.weixin.qq.com/cgi-bin/webhook/send?key=fakekey123"
    );
}

#[test]
fn slashes_at_the_end_of_the_base_do_not_count() {
    assert_eq!(override_url("http://h///", "https://api", "/x"), "http://h/api/x");
    assert_eq!(override_url("http://h", "https://api", "/x"), "http://h/api/x");
    assert_eq!(override_url("///", "a", ""), "/a");
    assert_eq!(override_url("", "a", ""), "/a");
}

#[test]
fn only_the_first_double_slash_ends_the_scheme() {
    assert_eq!(override_url("b", "x//y//z", ""), "b/y//z");
    assert_eq!(override_url("b", "no-scheme", ""), "b/no-scheme");
    assert_eq!(override_url("b", "x///y", ""), "b//y");
    assert_eq!(override_url("b", "x/", ""), "b/x/");
    assert_eq!(override_url("b", "x//", ""), "b/");
}
