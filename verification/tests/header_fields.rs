//! The comma-separated token matching used for `Connection` headers.

use acril_http::headers::has_token;

#[test]
fn a_lone_token_matches() {
    assert!(has_token(b"close", b"close"));
    assert!(has_token(b"CLOSE", b"close"));
    assert!(has_token(b"Upgrade", b"upgrade"));
}

#[test]
fn tokens_are_found_among_a_list() {
    assert!(has_token(b"keep-alive, Upgrade", b"upgrade"));
    assert!(has_token(b"upgrade, keep-alive", b"upgrade"));
    assert!(has_token(b"a,b,close,d", b"close"));
}

#[test]
fn tokens_are_trimmed_of_surrounding_whitespace() {
    assert!(has_token(b"  close  ", b"close"));
    assert!(has_token(b"keep-alive ,\tclose", b"close"));
}

#[test]
fn substrings_are_not_tokens() {
    assert!(!has_token(b"closed", b"close"));
    assert!(!has_token(b"disclose", b"close"));
    assert!(!has_token(b"keep-alive", b"close"));
    assert!(!has_token(b"", b"close"));
}

#[test]
fn an_empty_list_element_is_only_the_empty_token() {
    assert!(!has_token(b"keep-alive,,upgrade", b"close"));
    assert!(has_token(b"keep-alive,,upgrade", b"upgrade"));
}
