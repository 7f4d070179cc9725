use http::{HeaderMap, HeaderName, HeaderValue};
use tunneld::headers::{
    is_dropped, is_handshake_only, is_hop_by_hop, is_visible, pass_headers, text_of_value, Passage,
};

const NAMES: [&str; 18] = [
    "connection",
    "keep-alive",
    "proxy-authenticate",
    "proxy-authorization",
    "te",
    "trailer",
    "trailers",
    "transfer-encoding",
    "upgrade",
    "host",
    "content-length",
    "sec-websocket-key",
    "sec-websocket-version",
    "sec-websocket-protocol",
    "cookie",
    "x-custom",
    "accept",
    "authorization",
];

fn all() -> HeaderMap {
    let mut m = HeaderMap::new();
    for n in NAMES {
        m.append(n, HeaderValue::from_static("one"));
        m.append(n, HeaderValue::from_static("two"));
    }
    m
}

fn left(passage: Passage) -> Vec<&'static str> {
    let mut m = all();
    pass_headers(passage, &mut m);
    for n in NAMES {
        let values: Vec<&[u8]> = m.get_all(n).iter().map(|v| v.as_bytes()).collect();
        if m.contains_key(n) {
            assert_eq!(values, vec![b"one".as_slice(), b"two".as_slice()]);
        }
    }
    NAMES.iter().copied().filter(|n| m.contains_key(*n)).collect()
}

#[test]
fn hop_by_hop_headers() {
    for n in ["Connection", "KEEP-ALIVE", "Proxy-Authenticate", "proxy-authorization", "TE"] {
        assert!(is_hop_by_hop(n));
    }
    for n in ["trailers", "Transfer-Encoding", "upgrade", "Host"] {
        assert!(is_hop_by_hop(n));
    }
    for n in ["trailer", "content-length", "cookie", "", "connection ", "x-te"] {
        assert!(!is_hop_by_hop(n));
    }
}

#[test]
fn handshake_headers() {
    for n in ["Sec-WebSocket-Key", "sec-websocket-version", "Content-Length", "host", "te"] {
        assert!(is_handshake_only(n));
    }
    for n in ["sec-websocket-protocol", "sec-websocket-extensions", "cookie", "origin"] {
        assert!(!is_handshake_only(n));
    }
}

#[test]
fn public_request_enters_the_tunnel() {
    assert_eq!(
        left(Passage::RequestIn),
        vec![
            "trailers",
            "content-length",
            "sec-websocket-key",
            "sec-websocket-version",
            "sec-websocket-protocol",
            "cookie",
            "x-custom",
            "accept",
            "authorization"
        ]
    );
}

#[test]
fn handshake_enters_and_leaves_the_tunnel() {
    let expected =
        vec!["trailer", "sec-websocket-protocol", "cookie", "x-custom", "accept", "authorization"];
    assert_eq!(left(Passage::HandshakeIn), expected);
    assert_eq!(left(Passage::HandshakeOut), expected);
}

#[test]
fn request_leaves_the_tunnel() {
    let kept = left(Passage::RequestOut);
    assert!(!kept.contains(&"host"));
    assert!(!kept.contains(&"content-length"));
    assert_eq!(kept.len(), NAMES.len() - 2);
}

#[test]
fn response_enters_and_leaves_the_tunnel() {
    let inside = left(Passage::ResponseIn);
    assert!(inside.contains(&"host"));
    let outside = left(Passage::ResponseOut);
    assert_eq!(
        outside,
        vec![
            "trailer",
            "content-length",
            "sec-websocket-key",
            "sec-websocket-version",
            "sec-websocket-protocol",
            "cookie",
            "x-custom",
            "accept",
            "authorization"
        ]
    );
    for n in NAMES {
        assert_eq!(inside.contains(&n), outside.contains(&n) || n == "host");
    }
}

#[test]
fn headers_through_both_ends_of_the_tunnel() {
    let mut request = all();
    pass_headers(Passage::RequestIn, &mut request);
    pass_headers(Passage::RequestOut, &mut request);
    let names: Vec<&str> =
        NAMES.iter().copied().filter(|n| request.contains_key(*n)).collect();
    assert_eq!(
        names,
        vec![
            "trailers",
            "sec-websocket-key",
            "sec-websocket-version",
            "sec-websocket-protocol",
            "cookie",
            "x-custom",
            "accept",
            "authorization"
        ]
    );
    let mut response = all();
    pass_headers(Passage::ResponseIn, &mut response);
    pass_headers(Passage::ResponseOut, &mut response);
    let mut direct = all();
    pass_headers(Passage::ResponseOut, &mut direct);
    assert_eq!(response, direct);
}

#[test]
fn names_that_text_does_not_find_pass_unchanged() {
    let quoted = HeaderName::from_lowercase(b"x\"y").unwrap_or_else(|_| panic!("not a name"));
    for passage in [
        Passage::RequestIn,
        Passage::HandshakeIn,
        Passage::RequestOut,
        Passage::HandshakeOut,
        Passage::ResponseIn,
        Passage::ResponseOut,
    ] {
        let mut m = HeaderMap::new();
        m.insert("upgrade", HeaderValue::from_static("1"));
        m.insert("host", HeaderValue::from_static("2"));
        m.insert(quoted.clone(), HeaderValue::from_static("3"));
        assert!(m.get("x\"y").is_none());
        pass_headers(passage, &mut m);
        assert_eq!(m.get(&quoted).map(|v| v.as_bytes()), Some(b"3".as_slice()));
    }
}

#[test]
fn passing_twice_drops_nothing_more() {
    let mut m = all();
    pass_headers(Passage::ResponseOut, &mut m);
    let once = m.clone();
    pass_headers(Passage::ResponseOut, &mut m);
    assert_eq!(m, once);
}

#[test]
fn pseudo_headers_do_not_leave_the_tunnel() {
    assert!(is_dropped(Passage::RequestOut, ":path"));
    assert!(is_dropped(Passage::HandshakeOut, ":protocol"));
    assert!(!is_dropped(Passage::RequestIn, ":path"));
    assert!(!is_dropped(Passage::RequestOut, "x:path"));
    assert!(!is_dropped(Passage::RequestOut, ""));
}

#[test]
fn visible_values() {
    assert!(is_visible(b""));
    assert!(is_visible(b"a b\t~"));
    assert!(!is_visible(b"a\x7f"));
    assert!(!is_visible(b"a\x1f"));
    assert!(!is_visible(b"\xc3\xb6"));
    assert_eq!(text_of_value(b"a b\t~"), Some("a b\t~".to_string()));
    assert_eq!(text_of_value(b"\xc3\xb6"), None);
}

#[test]
fn visible_values_agree_with_header_values() {
    for b in 0u8..=255 {
        if let Ok(v) = HeaderValue::from_bytes(&[b'a', b]) {
            assert_eq!(is_visible(v.as_bytes()), v.to_str().is_ok());
            assert_eq!(text_of_value(v.as_bytes()), v.to_str().ok().map(|s| s.to_string()));
        }
    }
}
