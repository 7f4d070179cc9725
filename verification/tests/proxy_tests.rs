use http::{HeaderMap, HeaderValue};
use tunneld::proto::TunnelId;
use tunneld::proxy::{
    plan_forward, plan_ws, proxy_request, proxy_response, proxy_through, proxy_ws, target_uri,
    uri_or_root, ws_response, ProxyPlan, Relay, RequestHead, Switch, TunnelHead, Upstream, WsPlan,
};
use tunneld::reply::Reply;
use tunneld::state::{run, Admission, AppState, Args, Handle};
use tunneld::websocket::handle_request;

const SECRET: &str = "0123456789abcdef";
const ID: TunnelId = [7; 16];

fn server() -> AppState {
    let mut state = run(Args {
        secret: SECRET.to_string(),
        domain: "tunnel.le.ht".to_string(),
        public_base: "https://tunnel.le.ht".to_string(),
        data_public: "tunnel.le.ht:7844".to_string(),
    })
    .unwrap_or_else(|_| panic!("refused"));
    assert!(state.create_with("a".to_string(), ID, 0).is_ok());
    state
}

/// Begins to let a client in to the tunnel.
fn hold(state: &mut AppState) -> Handle {
    let h = state.tunnel_at("a").unwrap_or_else(|| panic!("no such tunnel"));
    assert_eq!(state.let_in(&h), Admission::Admitted);
    h
}

fn attached() -> AppState {
    let mut state = server();
    let h = hold(&mut state);
    state.settle(&h, true);
    state
}

fn headers(list: &[(&'static str, &'static str)]) -> HeaderMap {
    let mut m = HeaderMap::new();
    for (n, v) in list {
        m.append(*n, HeaderValue::from_static(v));
    }
    m
}

fn request(method: &str, path: Option<&str>, list: &[(&'static str, &'static str)]) -> RequestHead {
    RequestHead {
        method: method.to_string(),
        path_and_query: path.map(|p| p.to_string()),
        headers: headers(list),
    }
}

fn forwarded(plan: ProxyPlan) -> TunnelHead {
    match plan {
        ProxyPlan::Forward { client, head } => {
            assert_eq!(client, 0);
            head
        }
        _ => panic!("not forwarded"),
    }
}

fn status(r: Reply) -> (u16, String) {
    (r.status, r.body.unwrap_or_default())
}

#[test]
fn request_is_forwarded_to_its_client() {
    let head = forwarded(proxy_request(
        &attached(),
        "a",
        request(
            "POST",
            Some("/x/y?z=1"),
            &[
                ("host", "a.tunnel.le.ht"),
                ("connection", "close"),
                ("te", "trailers"),
                ("trailer", "x"),
                ("content-length", "3"),
                ("cookie", "1"),
                ("cookie", "2"),
            ],
        ),
    ));
    assert_eq!(head.method, "POST");
    assert_eq!(head.uri, "https://a.tunnel.le.ht/x/y?z=1");
    assert_eq!(head.protocol, None);
    let expected = headers(&[("content-length", "3"), ("cookie", "1"), ("cookie", "2")]);
    assert_eq!(head.headers, expected);
    assert!(!handle_request(&head.method, head.protocol.as_deref()));
}

#[test]
fn request_without_a_path_is_for_the_root() {
    let head = forwarded(proxy_request(&attached(), "a", request("OPTIONS", None, &[])));
    assert_eq!(head.uri, "https://a.tunnel.le.ht/");
}

#[test]
fn request_with_a_bad_address_is_for_the_root() {
    let mut state = run(Args {
        secret: SECRET.to_string(),
        domain: "bad domain".to_string(),
        public_base: "https://x".to_string(),
        data_public: "x:1".to_string(),
    })
    .unwrap_or_else(|_| panic!("refused"));
    assert!(state.create_with("a".to_string(), ID, 0).is_ok());
    let h = hold(&mut state);
    state.settle(&h, true);
    let head = forwarded(proxy_request(&state, "a", request("GET", Some("/x"), &[])));
    assert_eq!(head.uri, "/");
    let ws = request("GET", Some("/x"), &[("sec-websocket-key", "k")]);
    match proxy_ws(&state, "a", ws) {
        WsPlan::Answer(r) => assert_eq!(status(r), (502, "Bad Gateway".to_string())),
        WsPlan::Connect { .. } => panic!("connected"),
    }
}

#[test]
fn head_inside_the_tunnel() {
    let list = [("host", "h"), ("upgrade", "h2c"), ("x-a", "1")];
    let head = plan_forward(request("GET", Some("/x"), &list), "https://a.d/x".to_string(), true);
    assert_eq!(head.uri, "https://a.d/x");
    assert_eq!(head.headers, headers(&[("x-a", "1")]));
    let head = plan_forward(request("GET", Some("/x"), &list), "https://a.d/x".to_string(), false);
    assert_eq!((head.method.as_str(), head.uri.as_str()), ("GET", "/"));
}

#[test]
fn tunnel_without_a_client_is_a_bad_gateway() {
    for sub in ["a", "b"] {
        match proxy_request(&server(), sub, request("GET", Some("/"), &[])) {
            ProxyPlan::Answer(r) => assert_eq!(status(r), (502, "Bad Gateway".to_string())),
            _ => panic!("not answered"),
        }
    }
}

/// A request that has to wait, and the tunnel that it waits for.
fn waiting(state: &AppState) -> (Handle, RequestHead) {
    match proxy_request(state, "a", request("GET", Some("/x"), &[])) {
        ProxyPlan::Wait { tunnel, request } => (tunnel, request),
        _ => panic!("not waiting"),
    }
}

#[test]
fn request_waits_while_the_client_comes_in() {
    let mut state = server();
    let h = hold(&mut state);
    let (tunnel, head) = waiting(&state);
    assert_eq!((tunnel.subdomain.as_str(), tunnel.serial), ("a", h.serial));
    let (tunnel, head) = match proxy_through(&state, tunnel, head) {
        ProxyPlan::Wait { tunnel, request } => (tunnel, request),
        _ => panic!("not waiting"),
    };
    state.settle(&h, true);
    let head = forwarded(proxy_through(&state, tunnel, head));
    assert_eq!(head.uri, "https://a.tunnel.le.ht/x");
}

#[test]
fn waiting_request_keeps_its_tunnel_though_it_is_deleted() {
    let mut token = HeaderMap::new();
    token.insert("authorization", HeaderValue::from_static("Bearer 0123456789abcdef"));
    for came_in in [true, false] {
        let mut state = server();
        let h = hold(&mut state);
        let (tunnel, head) = waiting(&state);
        assert_eq!(state.delete_tunnel(&token, &ID).reply.status, 204);
        assert!(matches!(
            proxy_request(&state, "a", request("GET", Some("/x"), &[])),
            ProxyPlan::Answer(_)
        ));
        state.settle(&h, came_in);
        match proxy_through(&state, tunnel, head) {
            ProxyPlan::Forward { client, .. } => assert!(came_in && client == h.serial),
            ProxyPlan::Answer(r) => assert!(!came_in && r.status == 502),
            _ => panic!("neither sent nor answered"),
        }
    }
}

#[test]
fn websocket_request_goes_on_as_one() {
    let list = [("upgrade", "websocket"), ("connection", "Upgrade"), ("x-a", "1")];
    match proxy_request(&attached(), "a", request("GET", Some("/ws"), &list)) {
        ProxyPlan::WebSocket { client, request } => {
            assert_eq!(client, 0);
            assert_eq!(request.path_and_query.as_deref(), Some("/ws"));
            assert_eq!(request.headers, headers(&list));
        }
        _ => panic!("not a websocket"),
    }
}

#[test]
fn websocket_is_opened_through_the_tunnel() {
    let list = [
        ("host", "a.tunnel.le.ht"),
        ("upgrade", "websocket"),
        ("connection", "Upgrade"),
        ("sec-websocket-key", "dGhlIHNhbXBsZSBub25jZQ=="),
        ("sec-websocket-version", "13"),
        ("sec-websocket-protocol", "chat"),
        ("origin", "x"),
    ];
    match proxy_ws(&attached(), "a", request("GET", Some("/ws?q"), &list)) {
        WsPlan::Connect { head, accept } => {
            assert_eq!(head.method, "CONNECT");
            assert_eq!(head.uri, "https://a.tunnel.le.ht/ws?q");
            assert_eq!(head.protocol.as_deref(), Some("websocket"));
            assert_eq!(
                head.headers,
                headers(&[("sec-websocket-protocol", "chat"), ("origin", "x")])
            );
            assert_eq!(accept, "s3pPLMBiTxaQ9kYGzzhZRbK+xOo=");
            assert!(handle_request(&head.method, head.protocol.as_deref()));
        }
        WsPlan::Answer(_) => panic!("refused"),
    }
}

#[test]
fn websocket_without_a_key_is_a_bad_request() {
    match proxy_ws(&attached(), "a", request("GET", Some("/"), &[])) {
        WsPlan::Answer(r) => {
            assert_eq!(status(r), (400, "missing sec-websocket-key".to_string()))
        }
        WsPlan::Connect { .. } => panic!("connected"),
    }
}

#[test]
fn websocket_with_an_unreadable_key_is_a_bad_request() {
    let mut head = request("GET", Some("/"), &[]);
    let key = HeaderValue::from_bytes(b"\xff").unwrap_or_else(|_| panic!("not a header"));
    head.headers.insert("sec-websocket-key", key);
    match proxy_ws(&attached(), "a", head) {
        WsPlan::Answer(r) => assert_eq!(status(r), (400, "bad sec-websocket-key".to_string())),
        WsPlan::Connect { .. } => panic!("connected"),
    }
}

#[test]
fn websocket_with_a_bad_address_is_a_bad_gateway() {
    let key = [("sec-websocket-key", "k")];
    match plan_ws(request("GET", Some("/"), &key), "x".to_string(), false) {
        WsPlan::Answer(r) => assert_eq!(status(r), (502, "Bad Gateway".to_string())),
        WsPlan::Connect { .. } => panic!("connected"),
    }
    match plan_ws(request("GET", Some("/"), &[]), "x".to_string(), false) {
        WsPlan::Answer(r) => assert_eq!(r.status, 400),
        WsPlan::Connect { .. } => panic!("connected"),
    }
}

#[test]
fn addresses_inside_the_tunnel() {
    assert_eq!(target_uri("a", "d", &Some("/p?q".to_string())), "https://a.d/p?q");
    assert_eq!(target_uri("a", "d", &None), "https://a.d/");
    assert_eq!(uri_or_root("x".to_string(), true), "x");
    assert_eq!(uri_or_root("x".to_string(), false), "/");
}

#[test]
fn response_is_relayed_without_hop_by_hop_headers() {
    let m = headers(&[
        ("connection", "x"),
        ("transfer-encoding", "chunked"),
        ("host", "h"),
        ("set-cookie", "1"),
        ("set-cookie", "2"),
    ]);
    match proxy_response(Upstream::Responded { status: 418, headers: m }) {
        Relay::Response { status, headers: h } => {
            assert_eq!(status, 418);
            assert_eq!(h, headers(&[("set-cookie", "1"), ("set-cookie", "2")]));
        }
        Relay::Answer(_) => panic!("answered"),
    }
}

#[test]
fn failures_on_the_way() {
    match proxy_response(Upstream::Failed) {
        Relay::Answer(r) => assert_eq!(status(r), (502, "Bad Gateway".to_string())),
        Relay::Response { .. } => panic!("relayed"),
    }
    match proxy_response(Upstream::TimedOut) {
        Relay::Answer(r) => assert_eq!(status(r), (504, "Gateway Timeout".to_string())),
        Relay::Response { .. } => panic!("relayed"),
    }
    match ws_response(Upstream::Failed, "x".to_string()) {
        Switch::Answer(r) => assert_eq!(status(r), (502, "Bad Gateway".to_string())),
        Switch::Protocols { .. } => panic!("switched"),
    }
    match ws_response(Upstream::TimedOut, "x".to_string()) {
        Switch::Answer(r) => assert_eq!(status(r), (504, "Gateway Timeout".to_string())),
        Switch::Protocols { .. } => panic!("switched"),
    }
    let refused = Upstream::Responded { status: 502, headers: HeaderMap::new() };
    match ws_response(refused, "x".to_string()) {
        Switch::Answer(r) => assert_eq!(status(r), (502, "Bad Gateway".to_string())),
        Switch::Protocols { .. } => panic!("switched"),
    }
}

#[test]
fn protocols_are_switched() {
    let m = headers(&[
        ("sec-websocket-extensions", "deflate"),
        ("sec-websocket-protocol", "chat"),
        ("sec-websocket-protocol", "other"),
        ("x-a", "1"),
    ]);
    match ws_response(Upstream::Responded { status: 200, headers: m }, "abc=".to_string()) {
        Switch::Protocols { status, headers } => {
            assert_eq!(status, 101);
            assert_eq!(
                headers,
                vec![
                    ("upgrade".to_string(), b"websocket".to_vec()),
                    ("connection".to_string(), b"upgrade".to_vec()),
                    ("sec-websocket-accept".to_string(), b"abc=".to_vec()),
                    ("sec-websocket-protocol".to_string(), b"chat".to_vec()),
                    ("sec-websocket-extensions".to_string(), b"deflate".to_vec()),
                ]
            );
        }
        Switch::Answer(_) => panic!("answered"),
    }
}
