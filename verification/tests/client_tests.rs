use http::{HeaderMap, HeaderValue};
use tunneld::client::{
    answer_http, answer_ws, asked_path, create_url, handle_http, handle_ws, plan_handshake,
    plan_http, run, sni_host, Args, ClientAction, ClientEvent, ClientPhase, Stop, StreamHead,
    WsAnswer,
};
use tunneld::proto::{AuthReply, Prelude};
use tunneld::state::CreateResp;

fn args() -> Args {
    Args {
        url: "https://tunnel.le.ht/".to_string(),
        secret: "0123456789abcdef".to_string(),
        local: "127.0.0.1:3000".to_string(),
        connect_addr: None,
    }
}

fn tunnel(addr: &str) -> CreateResp {
    CreateResp {
        tunnel_id: [9; 16],
        subdomain: "a-b-c-d".to_string(),
        public_url: "https://a-b-c-d.tunnel.le.ht".to_string(),
        connect_addr: addr.to_string(),
    }
}

fn headers(list: &[(&'static str, &'static str)]) -> HeaderMap {
    let mut m = HeaderMap::new();
    for (n, v) in list {
        m.append(*n, HeaderValue::from_static(v));
    }
    m
}

fn why(r: (ClientPhase, ClientAction)) -> Option<Stop> {
    match r {
        (ClientPhase::Stopped, ClientAction::Stop(s)) => Some(s),
        _ => None,
    }
}

fn created(status: u16, t: Option<CreateResp>) -> ClientEvent {
    ClientEvent::Created { status, tunnel: t }
}

#[test]
fn address_of_the_control_plane() {
    assert_eq!(create_url("https://tunnel.le.ht"), "https://tunnel.le.ht/api/tunnels");
    assert_eq!(create_url("https://tunnel.le.ht//"), "https://tunnel.le.ht/api/tunnels");
    assert_eq!(create_url(""), "/api/tunnels");
}

#[test]
fn host_of_an_address() {
    assert_eq!(sni_host("tunnel.le.ht:7844"), Some("tunnel.le.ht".to_string()));
    assert_eq!(sni_host("[::1]:7844"), Some("[::1]".to_string()));
    assert_eq!(sni_host(":7844"), Some(String::new()));
    assert_eq!(sni_host("tunnel.le.ht"), None);
}

#[test]
fn client_that_gets_through() {
    let a = args();
    let (phase, action) = run(&a, ClientPhase::Idle, ClientEvent::Start);
    match action {
        ClientAction::Create { url, token } => {
            assert_eq!(url, "https://tunnel.le.ht/api/tunnels");
            assert_eq!(token, "0123456789abcdef");
        }
        _ => panic!("no tunnel asked for"),
    }
    let (phase, action) = run(&a, phase, created(201, Some(tunnel("data.le.ht:7844"))));
    match action {
        ClientAction::Connect { addr, host } => {
            assert_eq!(addr, "data.le.ht:7844");
            assert_eq!(host, "data.le.ht");
        }
        _ => panic!("not connected"),
    }
    let (phase, action) = run(&a, phase, ClientEvent::Connected(true));
    match action {
        ClientAction::Send(bytes) => {
            let (p, n) = Prelude::read(&bytes).unwrap_or_else(|e| panic!("{:?}", e));
            assert_eq!(n, bytes.len());
            assert_eq!(p.tunnel_id, [9; 16]);
            assert_eq!(p.token, b"0123456789abcdef".to_vec());
        }
        _ => panic!("not introduced"),
    }
    let (phase, action) = run(&a, phase, ClientEvent::Introduced(true));
    assert!(matches!(action, ClientAction::ReadReply));
    let (phase, action) = run(&a, phase, ClientEvent::Replied(Some(AuthReply::Accept)));
    assert!(matches!(action, ClientAction::Serve));
    assert!(matches!(phase, ClientPhase::Serving));
    assert_eq!(why(run(&a, phase, ClientEvent::Ended)), Some(Stop::Finished));
}

#[test]
fn client_is_told_another_address() {
    let mut a = args();
    a.connect_addr = Some("127.0.0.1:1".to_string());
    match run(&a, ClientPhase::Creating, created(200, Some(tunnel("data.le.ht:7844")))).1 {
        ClientAction::Connect { addr, host } => {
            assert_eq!(addr, "127.0.0.1:1");
            assert_eq!(host, "127.0.0.1");
        }
        _ => panic!("not connected"),
    }
}

#[test]
fn client_that_gets_no_tunnel() {
    let a = args();
    let idle = || ClientPhase::Creating;
    assert_eq!(why(run(&a, idle(), ClientEvent::CreateFailed)), Some(Stop::NoTunnel));
    assert_eq!(why(run(&a, idle(), created(404, None))), Some(Stop::NoTunnel));
    assert_eq!(why(run(&a, idle(), created(199, Some(tunnel("h:1"))))), Some(Stop::NoTunnel));
    assert_eq!(why(run(&a, idle(), created(300, Some(tunnel("h:1"))))), Some(Stop::NoTunnel));
    assert_eq!(why(run(&a, idle(), created(201, None))), Some(Stop::BadAnswer));
    assert_eq!(why(run(&a, idle(), created(299, Some(tunnel("h"))))), Some(Stop::MissingPort));
    assert_eq!(why(run(&a, idle(), created(299, Some(tunnel("h:1"))))), None);
}

#[test]
fn client_that_is_not_let_in() {
    let a = args();
    let connecting = || ClientPhase::Connecting([9; 16]);
    let replied = |r| run(&args(), ClientPhase::AwaitingReply, ClientEvent::Replied(r));
    assert_eq!(
        why(run(&a, connecting(), ClientEvent::Connected(false))),
        Some(Stop::NoConnection)
    );
    assert_eq!(
        why(run(&a, ClientPhase::Introducing, ClientEvent::Introduced(false))),
        Some(Stop::NotIntroduced)
    );
    assert_eq!(why(replied(None)), Some(Stop::NoReply));
    assert_eq!(why(replied(Some(AuthReply::Reject))), Some(Stop::Rejected));
    assert_eq!(why(replied(Some(AuthReply::Accept))), None);
}

#[test]
fn token_that_does_not_fit() {
    let mut a = args();
    a.secret = "x".repeat(129);
    let r = run(&a, ClientPhase::Connecting([9; 16]), ClientEvent::Connected(true));
    assert_eq!(why(r), Some(Stop::TokenTooLong));
    a.secret = "x".repeat(128);
    let r = run(&a, ClientPhase::Connecting([9; 16]), ClientEvent::Connected(true));
    assert!(matches!(r.1, ClientAction::Send(bytes) if bytes.len() == 154));
    a.secret = "ö".repeat(65);
    let r = run(&a, ClientPhase::Connecting([9; 16]), ClientEvent::Connected(true));
    assert_eq!(why(r), Some(Stop::TokenTooLong));
}

fn stream(path: Option<&str>, authority: Option<&str>) -> StreamHead {
    StreamHead {
        method: "PUT".to_string(),
        path_and_query: path.map(|p| p.to_string()),
        authority: authority.map(|a| a.to_string()),
        headers: headers(&[
            ("host", "evil"),
            ("content-length", "5"),
            ("te", "trailers"),
            ("sec-websocket-key", "theirs"),
            ("sec-websocket-version", "8"),
            ("sec-websocket-protocol", "chat"),
            ("cookie", "1"),
            ("cookie", "2"),
        ]),
    }
}

#[test]
fn request_to_the_local_service() {
    let r = handle_http(stream(Some("/x?y=1"), Some("a.tunnel.le.ht")));
    assert_eq!(r.method, "PUT");
    assert_eq!(r.uri, "/x?y=1");
    assert_eq!(r.added, vec![("host".to_string(), "a.tunnel.le.ht".to_string())]);
    assert_eq!(
        r.headers,
        headers(&[
            ("te", "trailers"),
            ("sec-websocket-key", "theirs"),
            ("sec-websocket-version", "8"),
            ("sec-websocket-protocol", "chat"),
            ("cookie", "1"),
            ("cookie", "2"),
        ])
    );
}

#[test]
fn request_without_authority_or_path() {
    let r = handle_http(stream(None, None));
    assert_eq!(r.uri, "/");
    assert!(r.added.is_empty());
    assert_eq!(asked_path(&None), "/");
    assert_eq!(asked_path(&Some("/a".to_string())), "/a");
}

#[test]
fn path_that_is_no_uri_is_the_root() {
    assert_eq!(plan_http(stream(Some("/x"), None), false).uri, "/");
    assert_eq!(plan_http(stream(Some("/x"), None), true).uri, "/x");
    assert_eq!(handle_http(stream(Some("/x y"), None)).uri, "/");
}

#[test]
fn handshake_with_the_local_service() {
    let r = plan_handshake(stream(Some("/ws"), Some("a.d")), true, "mine".to_string());
    assert_eq!(r.method, "GET");
    assert_eq!(r.uri, "/ws");
    let pair = |a: &str, b: &str| (a.to_string(), b.to_string());
    assert_eq!(
        r.added,
        vec![
            pair("host", "a.d"),
            pair("connection", "Upgrade"),
            pair("upgrade", "websocket"),
            pair("sec-websocket-key", "mine"),
            pair("sec-websocket-version", "13"),
        ]
    );
    assert_eq!(
        r.headers,
        headers(&[("sec-websocket-protocol", "chat"), ("cookie", "1"), ("cookie", "2")])
    );
    for (name, _) in &r.added {
        assert!(!r.headers.contains_key(name.as_str()));
    }
    let r = plan_handshake(stream(Some("/ws"), None), false, "mine".to_string());
    assert_eq!(r.uri, "/");
    assert_eq!(r.added[0], pair("host", "localhost"));
}

#[test]
fn handshake_has_a_key_of_its_own() {
    let a = handle_ws(stream(Some("/ws"), None));
    assert_eq!(a.uri, "/ws");
    assert_eq!(a.added[3].0, "sec-websocket-key");
    assert_eq!(a.added[3].1.len(), 24);
    let differs = |r: tunneld::client::LocalHead| r.added[3].1 != a.added[3].1;
    assert!((0..3).any(|_| differs(handle_ws(stream(Some("/ws"), None)))));
}

#[test]
fn response_of_the_local_service() {
    let m = headers(&[
        ("connection", "close"),
        ("transfer-encoding", "chunked"),
        ("keep-alive", "1"),
        ("upgrade", "h2c"),
        ("host", "h"),
        ("content-type", "text/plain"),
    ]);
    let r = answer_http(418, m);
    assert_eq!(r.status, 418);
    assert_eq!(r.headers, headers(&[("host", "h"), ("content-type", "text/plain")]));
}

#[test]
fn local_service_that_refuses_a_websocket() {
    for status in [200, 400, 500] {
        assert!(matches!(answer_ws(status, &HeaderMap::new()), WsAnswer::Refuse(502)));
    }
}

#[test]
fn local_service_that_opens_a_websocket() {
    let m = headers(&[
        ("sec-websocket-accept", "x"),
        ("sec-websocket-extensions", "deflate"),
        ("sec-websocket-protocol", "chat"),
    ]);
    match answer_ws(101, &m) {
        WsAnswer::Open { status, headers } => {
            assert_eq!(status, 200);
            assert_eq!(
                headers,
                vec![
                    ("sec-websocket-protocol".to_string(), b"chat".to_vec()),
                    ("sec-websocket-extensions".to_string(), b"deflate".to_vec()),
                ]
            );
        }
        WsAnswer::Refuse(_) => panic!("refused"),
    }
    assert!(matches!(
        answer_ws(101, &HeaderMap::new()),
        WsAnswer::Open { status: 200, headers } if headers.is_empty()
    ));
}
