use http::{HeaderMap, HeaderValue};
use tunneld::host::{dispatch, route_host, Dispatch, HostRoute};
use tunneld::state::{run, AppState, Args};

fn server(domain: &str) -> AppState {
    run(Args {
        secret: "0123456789abcdef".to_string(),
        domain: domain.to_string(),
        public_base: "https://tunnel.le.ht".to_string(),
        data_public: "tunnel.le.ht:7844".to_string(),
    })
    .unwrap_or_else(|_| panic!("refused"))
}

fn sub(route: HostRoute) -> Option<String> {
    match route {
        HostRoute::Apex | HostRoute::NotFound => None,
        HostRoute::Proxy(s) => Some(s),
    }
}

fn asked(domain: &str, host: &[u8]) -> Option<String> {
    let mut m = HeaderMap::new();
    m.insert("host", HeaderValue::from_bytes(host).unwrap_or_else(|_| panic!("not a header")));
    sub(server(domain).host_fallback(&m))
}

#[test]
fn label_in_front_of_the_apex() {
    assert_eq!(sub(route_host("a-b-c-d.tunnel.le.ht", "tunnel.le.ht")), Some("a-b-c-d".into()));
    assert_eq!(sub(route_host("a.b", "b")), Some("a".into()));
}

#[test]
fn hosts_that_lead_nowhere() {
    assert_eq!(sub(route_host("tunnel.le.ht", "tunnel.le.ht")), None);
    assert_eq!(sub(route_host(".tunnel.le.ht", "tunnel.le.ht")), None);
    assert_eq!(sub(route_host("a.b.tunnel.le.ht", "tunnel.le.ht")), None);
    assert_eq!(sub(route_host("atunnel.le.ht", "tunnel.le.ht")), None);
    assert_eq!(sub(route_host("a.tunnel.le.hu", "tunnel.le.ht")), None);
    assert_eq!(sub(route_host("", "tunnel.le.ht")), None);
    assert_eq!(sub(route_host("le.ht", "tunnel.le.ht")), None);
}

#[test]
fn host_header_in_any_case_and_with_a_port() {
    assert_eq!(asked("tunnel.le.ht", b"a-b.tunnel.le.ht"), Some("a-b".into()));
    assert_eq!(asked("tunnel.le.ht", b"A-B.Tunnel.LE.ht"), Some("a-b".into()));
    assert_eq!(asked("Tunnel.Le.Ht", b"a-b.tunnel.le.ht"), Some("a-b".into()));
    assert_eq!(asked("tunnel.le.ht", b"a-b.tunnel.le.ht:8080"), Some("a-b".into()));
    assert_eq!(asked("tunnel.le.ht", b"a-b.tunnel.le.ht:80:90"), Some("a-b".into()));
}

#[test]
fn host_header_that_leads_nowhere() {
    assert_eq!(asked("tunnel.le.ht", b"tunnel.le.ht"), None);
    assert_eq!(asked("tunnel.le.ht", b"tunnel.le.ht:8080"), None);
    assert_eq!(asked("tunnel.le.ht", b"example.com"), None);
    assert_eq!(asked("tunnel.le.ht", b":8080"), None);
    assert_eq!(asked("tunnel.le.ht", b"\xc3\xb6.tunnel.le.ht"), None);
    assert_eq!(sub(server("tunnel.le.ht").host_fallback(&HeaderMap::new())), None);
}

#[test]
fn apex_beyond_ascii_is_lowered_too() {
    assert_eq!(asked("\u{212a}.example", b"a.k.example"), Some("a".into()));
}

#[test]
fn apex_in_any_case_and_with_a_port() {
    let state = server("Tunnel.Le.Ht");
    for host in ["tunnel.le.ht", "TUNNEL.le.ht", "tunnel.le.ht:8080"] {
        let mut m = HeaderMap::new();
        m.insert("host", HeaderValue::from_static(host));
        assert!(matches!(state.host_fallback(&m), HostRoute::Apex));
    }
    assert!(matches!(state.host_fallback(&HeaderMap::new()), HostRoute::NotFound));
}

fn part(path: &str, host: &str) -> String {
    match dispatch(path, route_host(host, "tunnel.le.ht")) {
        Dispatch::Control => "control".to_string(),
        Dispatch::Tunnel(s) => format!("tunnel {}", s),
        Dispatch::NotFound => "nowhere".to_string(),
    }
}

#[test]
fn every_host_answers_the_probe() {
    for host in ["a.tunnel.le.ht", "tunnel.le.ht", "example.com", ""] {
        assert_eq!(part("/health", host), "control");
    }
}

#[test]
fn own_paths_are_found_at_the_apex_only() {
    for path in ["/install", "/api/tunnels", "/dl/x", "/", "/healthy"] {
        assert_eq!(part(path, "tunnel.le.ht"), "control");
        assert_eq!(part(path, "a.tunnel.le.ht"), "tunnel a");
        assert_eq!(part(path, "example.com"), "nowhere");
        assert_eq!(part(path, "a.b.tunnel.le.ht"), "nowhere");
        assert_eq!(part(path, ""), "nowhere");
    }
}
