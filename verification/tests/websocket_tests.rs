use http::{HeaderMap, HeaderValue};
use tunneld::websocket::{
    challenge_bytes, handle_request, is_ws_upgrade, names_upgrade, new_ws_key, ws_accept,
    ws_key_of, WS_GUID,
};

fn asks(method: &str, upgrade: &'static str, connection: &'static str) -> bool {
    let mut m = HeaderMap::new();
    m.insert("Upgrade", HeaderValue::from_static(upgrade));
    m.insert("Connection", HeaderValue::from_static(connection));
    is_ws_upgrade(method, &m)
}

#[test]
fn accept_of_the_sample_key() {
    assert_eq!(ws_accept("dGhlIHNhbXBsZSBub25jZQ=="), "s3pPLMBiTxaQ9kYGzzhZRbK+xOo=");
}

#[test]
fn challenge_is_the_key_and_the_fixed_text() {
    assert_eq!(WS_GUID, "258EAFA5-E914-47DA-95CA-C5AB0DC85B11");
    assert_eq!(challenge_bytes("abc"), b"abc258EAFA5-E914-47DA-95CA-C5AB0DC85B11".to_vec());
}

#[test]
fn key_of_given_bytes() {
    assert_eq!(ws_key_of(*b"the sample nonce"), "dGhlIHNhbXBsZSBub25jZQ==");
    assert_eq!(ws_key_of([0u8; 16]), "AAAAAAAAAAAAAAAAAAAAAA==");
    assert_eq!(ws_key_of([0xff; 16]), "/////////////////////w==");
}

#[test]
fn fresh_keys() {
    let a = new_ws_key();
    assert_eq!(a.len(), 24);
    assert!(a.ends_with("=="));
    assert!((0..3).any(|_| new_ws_key() != a));
}

#[test]
fn upgrade_requests() {
    assert!(asks("GET", "websocket", "Upgrade"));
    assert!(asks("GET", "WebSocket", "keep-alive, Upgrade"));
    assert!(asks("GET", "websocket", "keep-alive ,\tUPGRADE "));
}

#[test]
fn other_requests() {
    assert!(!asks("POST", "websocket", "Upgrade"));
    assert!(!asks("get", "websocket", "Upgrade"));
    assert!(!asks("GET", "h2c", "Upgrade"));
    assert!(!asks("GET", "websocket ", "Upgrade"));
    assert!(!asks("GET", "websocket", "keep-alive"));
    assert!(!asks("GET", "websocket", "upgraded"));
    assert!(!asks("GET", "websocket", ""));
    let mut m = HeaderMap::new();
    assert!(!is_ws_upgrade("GET", &m));
    m.insert("upgrade", HeaderValue::from_static("websocket"));
    assert!(!is_ws_upgrade("GET", &m));
}

#[test]
fn upgrade_among_the_tokens() {
    assert!(names_upgrade("upgrade"));
    assert!(names_upgrade("a,, upgrade"));
    assert!(!names_upgrade("up grade"));
    assert!(!names_upgrade(""));
}

#[test]
fn streams_that_carry_a_websocket() {
    assert!(handle_request("CONNECT", Some("websocket")));
    assert!(handle_request("CONNECT", Some("WEBSOCKET")));
    assert!(!handle_request("CONNECT", Some("connect-udp")));
    assert!(!handle_request("CONNECT", None));
    assert!(!handle_request("GET", Some("websocket")));
}
