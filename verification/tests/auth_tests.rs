use http::{HeaderMap, HeaderValue};
use tunneld::auth::{check_auth, check_secret, constant_time_eq, presents_secret, SecretTooShort};

const SECRET: &str = "0123456789abcdef";

fn with(name: &'static str, value: &'static str) -> HeaderMap {
    let mut m = HeaderMap::new();
    m.insert(name, HeaderValue::from_static(value));
    m
}

#[test]
fn secret_needs_sixteen_characters() {
    assert_eq!(check_secret("0123456789abcde"), Err(SecretTooShort));
    assert_eq!(check_secret(SECRET), Ok(()));
    assert_eq!(check_secret(""), Err(SecretTooShort));
}

#[test]
fn secret_is_measured_in_characters() {
    assert_eq!(check_secret("öööööööö"), Err(SecretTooShort));
    assert_eq!(check_secret("öööööööööööööööö"), Ok(()));
}

#[test]
fn bytes_are_compared() {
    assert!(constant_time_eq(b"", b""));
    assert!(constant_time_eq(b"abc", b"abc"));
    assert!(!constant_time_eq(b"abc", b"abd"));
    assert!(!constant_time_eq(b"abc", b"xbc"));
    assert!(!constant_time_eq(b"abc", b"ab"));
    assert!(!constant_time_eq(b"\x01\x02", b"\x02\x01"));
}

#[test]
fn bearer_token_opens() {
    assert!(check_auth(&with("authorization", "Bearer 0123456789abcdef"), SECRET));
    assert!(check_auth(&with("Authorization", "Bearer 0123456789abcdef"), SECRET));
}

#[test]
fn anything_else_does_not_open() {
    assert!(!check_auth(&HeaderMap::new(), SECRET));
    assert!(!check_auth(&with("authorization", "Bearer 0123456789abcdeF"), SECRET));
    assert!(!check_auth(&with("authorization", "Bearer  0123456789abcdef"), SECRET));
    assert!(!check_auth(&with("authorization", "bearer 0123456789abcdef"), SECRET));
    assert!(!check_auth(&with("authorization", "Bearer 0123456789abcdef "), SECRET));
    assert!(!check_auth(&with("authorization", "Basic 0123456789abcdef"), SECRET));
    assert!(!check_auth(&with("authorization", "0123456789abcdef"), SECRET));
    assert!(!check_auth(&with("authorization", "Bearer"), SECRET));
    assert!(!check_auth(&with("authorization", ""), SECRET));
    assert!(!check_auth(&with("x-authorization", "Bearer 0123456789abcdef"), SECRET));
}

#[test]
fn only_the_first_authorization_counts() {
    let mut m = HeaderMap::new();
    m.append("authorization", HeaderValue::from_static("Bearer wrong"));
    m.append("authorization", HeaderValue::from_static("Bearer 0123456789abcdef"));
    assert!(!check_auth(&m, SECRET));
}

#[test]
fn secret_beyond_ascii_cannot_be_presented() {
    let secret = "öööööööööööööööö";
    let mut value: Vec<u8> = b"Bearer ".to_vec();
    value.extend_from_slice(secret.as_bytes());
    assert!(!presents_secret(&value, secret));
    let mut m = HeaderMap::new();
    m.insert(
        "authorization",
        HeaderValue::from_bytes(&value).unwrap_or_else(|_| panic!("not a header")),
    );
    assert!(!check_auth(&m, secret));
}
