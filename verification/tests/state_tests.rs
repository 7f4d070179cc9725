use http::{HeaderMap, HeaderValue};
use tunneld::proto::{Prelude, TunnelId};
use tunneld::state::{
    run, Admission, AppState, Args, Handle, Lookup, Reached, API_BODY_LIMIT, ATTACH_DEADLINE,
    CREATED, HEAD_TIMEOUT, MAX_DRAWS, MAX_TUNNELS, PRELUDE_TIMEOUT, REAPER_INTERVAL,
    TLS_ACCEPT_TIMEOUT,
};

const SECRET: &str = "0123456789abcdef";
const A: TunnelId = [0xa; 16];
const B: TunnelId = [0xb; 16];

fn server_at(base: &str) -> AppState {
    run(Args {
        secret: SECRET.to_string(),
        domain: "tunnel.le.ht".to_string(),
        public_base: base.to_string(),
        data_public: "data.le.ht:7844".to_string(),
    })
    .unwrap_or_else(|_| panic!("refused"))
}

fn server() -> AppState {
    server_at("https://tunnel.le.ht")
}

fn good() -> HeaderMap {
    let mut m = HeaderMap::new();
    m.insert("authorization", HeaderValue::from_static("Bearer 0123456789abcdef"));
    m
}

fn prelude(id: TunnelId) -> Prelude {
    Prelude { tunnel_id: id, token: SECRET.as_bytes().to_vec() }
}

fn make(state: &mut AppState, sub: &str, id: TunnelId, now: u64) {
    assert!(state.create_with(sub.to_string(), id, now).is_ok());
}

fn handle(state: &AppState, sub: &str) -> Handle {
    state.tunnel_at(sub).unwrap_or_else(|| panic!("no such tunnel"))
}

fn is_found(state: &AppState, id: TunnelId) -> bool {
    matches!(state.find(&prelude(id)), Lookup::Found(h) if h.tunnel_id == id)
}

fn attach(state: &mut AppState, sub: &str) -> Handle {
    let h = handle(state, sub);
    assert_eq!(state.let_in(&h), Admission::Admitted);
    state.settle(&h, true);
    h
}

fn reached(state: &AppState, sub: &str) -> Reached {
    match state.tunnel_at(sub) {
        Some(h) => state.reach(&h),
        None => Reached::Nobody,
    }
}

fn listing(state: &AppState) -> Vec<(String, TunnelId)> {
    let mut items: Vec<(String, TunnelId)> = match state.list_tunnels(&good()) {
        Ok(items) => items.into_iter().map(|i| (i.subdomain, i.tunnel_id)).collect(),
        Err(_) => panic!("refused"),
    };
    items.sort();
    items
}

#[test]
fn limits() {
    assert_eq!(MAX_TUNNELS, 1024);
    assert_eq!(MAX_DRAWS, 9);
    assert_eq!(ATTACH_DEADLINE, 60_000_000_000);
    assert_eq!(REAPER_INTERVAL, 15_000_000_000);
    assert_eq!(TLS_ACCEPT_TIMEOUT, 10_000_000_000);
    assert_eq!(PRELUDE_TIMEOUT, 10_000_000_000);
    assert_eq!(HEAD_TIMEOUT, 120_000_000_000);
    assert_eq!(API_BODY_LIMIT, 8 * 1024);
    assert_eq!(CREATED, 201);
}

#[test]
fn short_secret_is_refused() {
    let r = run(Args {
        secret: "0123456789abcde".to_string(),
        domain: "d".to_string(),
        public_base: "b".to_string(),
        data_public: "p".to_string(),
    });
    assert!(r.is_err());
}

#[test]
fn new_server_has_no_tunnels() {
    let state = server();
    assert!(listing(&state).is_empty());
    assert_eq!(state.domain(), "tunnel.le.ht");
    assert_eq!(state.public_base(), "https://tunnel.le.ht");
    assert!(state.tunnel_at("a").is_none());
}

#[test]
fn created_tunnel() {
    let mut state = server();
    let r = state.create_with("a-b-c-d".to_string(), A, 5).unwrap_or_else(|_| panic!("refused"));
    assert_eq!(r.tunnel_id, A);
    assert_eq!(r.subdomain, "a-b-c-d");
    assert_eq!(r.public_url, "https://a-b-c-d.tunnel.le.ht");
    assert_eq!(r.connect_addr, "data.le.ht:7844");
    assert_eq!(listing(&state), vec![("a-b-c-d".to_string(), A)]);
}

#[test]
fn scheme_of_the_public_address() {
    assert_eq!(server_at("http://x").public_url("s"), "http://s.tunnel.le.ht");
    assert_eq!(server_at("tunnel.le.ht").public_url("s"), "https://s.tunnel.le.ht");
    assert_eq!(server_at("a:/b").public_url("s"), "https://s.tunnel.le.ht");
    assert_eq!(server_at("a://b://c").public_url("s"), "a://s.tunnel.le.ht");
    assert_eq!(server_at("://b").public_url("s"), "://s.tunnel.le.ht");
}

#[test]
fn taken_subdomain_is_a_conflict() {
    let mut state = server();
    make(&mut state, "a", A, 0);
    match state.create_with("a".to_string(), B, 0) {
        Ok(_) => panic!("made twice"),
        Err(r) => {
            assert_eq!(r.status, 409);
            assert_eq!(r.body.as_deref(), Some("could not allocate subdomain"));
        }
    }
    assert_eq!(listing(&state), vec![("a".to_string(), A)]);
    assert!(matches!(state.find(&prelude(B)), Lookup::NoSuchTunnel));
}

#[test]
fn no_more_tunnels_than_fit() {
    let mut state = server();
    for i in 0..MAX_TUNNELS {
        let mut id = [0u8; 16];
        id[0] = (i % 256) as u8;
        id[1] = (i / 256) as u8;
        make(&mut state, &format!("s{}", i), id, 0);
    }
    match state.create_with("one-more".to_string(), [0xff; 16], 0) {
        Ok(_) => panic!("too many"),
        Err(r) => {
            assert_eq!(r.status, 503);
            assert_eq!(r.body.as_deref(), Some("too many tunnels"));
        }
    }
    match state.create_with("s7".to_string(), [0xff; 16], 0) {
        Ok(_) => panic!("too many"),
        Err(r) => assert_eq!(r.status, 409),
    }
    assert_eq!(listing(&state).len(), 1024);
    assert_eq!(state.delete_tunnel(&good(), &[0u8; 16]).reply.status, 204);
    make(&mut state, "one-more", [0xff; 16], 0);
    assert_eq!(listing(&state).len(), 1024);
}

fn candidates(list: &[&str]) -> Vec<String> {
    list.iter().map(|c| c.to_string()).collect()
}

#[test]
fn first_free_candidate_is_taken() {
    let mut state = server();
    make(&mut state, "a", A, 0);
    let made = state.create_from(&candidates(&["a", "a", "b", "c"]), B, 0);
    let r = made.unwrap_or_else(|_| panic!("refused"));
    assert_eq!((r.subdomain.as_str(), r.tunnel_id), ("b", B));
    assert_eq!(listing(&state), vec![("a".to_string(), A), ("b".to_string(), B)]);
}

#[test]
fn no_more_than_nine_candidates_are_looked_at() {
    let mut state = server();
    make(&mut state, "a", A, 0);
    let mut list = vec!["a"; 8];
    list.push("b");
    let tenth = {
        let mut l = vec!["a"; 9];
        l.push("b");
        l
    };
    for refused in [candidates(&tenth), candidates(&["a"]), candidates(&[])] {
        match state.create_from(&refused, B, 0) {
            Ok(_) => panic!("made"),
            Err(r) => {
                assert_eq!(r.status, 409);
                assert_eq!(r.body.as_deref(), Some("could not allocate subdomain"));
            }
        }
    }
    let r = state.create_from(&candidates(&list), B, 0).unwrap_or_else(|_| panic!("refused"));
    assert_eq!(r.subdomain, "b");
}

#[test]
fn subdomain_cannot_be_chosen() {
    let words = candidates(&["w"]);
    let mut wish = good();
    wish.insert("x-subdomain", HeaderValue::from_static("mine"));
    for headers in [good(), wish] {
        let mut state = server();
        let r = state.create_tunnel(&headers, &words, 0).unwrap_or_else(|_| panic!("refused"));
        assert_eq!(r.subdomain, "w-w-w-w");
        assert_eq!(r.public_url, "https://w-w-w-w.tunnel.le.ht");
    }
}

#[test]
fn drawn_tunnel() {
    let mut state = server();
    let words: Vec<String> = vec!["alpha".to_string(), "beta".to_string()];
    let r = state.create_tunnel(&good(), &words, 0).unwrap_or_else(|_| panic!("refused"));
    let parts: Vec<&str> = r.subdomain.split('-').collect();
    assert_eq!(parts.len(), 4);
    assert!(parts.iter().all(|p| *p == "alpha" || *p == "beta"));
    assert_eq!(r.public_url, format!("https://{}.tunnel.le.ht", r.subdomain));
    assert_eq!(r.connect_addr, "data.le.ht:7844");
    assert_eq!(r.tunnel_id[6] & 0xf0, 0x40);
    assert_eq!(r.tunnel_id[8] & 0xc0, 0x80);
    assert_eq!(listing(&state), vec![(r.subdomain.clone(), r.tunnel_id)]);
}

#[test]
fn drawing_gives_up_when_all_is_taken() {
    let mut state = server();
    let words: Vec<String> = vec!["w".to_string()];
    assert!(state.create_tunnel(&good(), &words, 0).is_ok());
    match state.create_tunnel(&good(), &words, 0) {
        Ok(_) => panic!("made twice"),
        Err(r) => assert_eq!(r.status, 409),
    }
    assert_eq!(listing(&state).len(), 1);
}

#[test]
fn drawn_ids_differ() {
    let mut state = server();
    let words: Vec<String> = (0..50).map(|i| format!("w{}", i)).collect();
    let mut ids: Vec<TunnelId> = Vec::new();
    for _ in 0..20 {
        if let Ok(r) = state.create_tunnel(&good(), &words, 0) {
            assert!(!ids.contains(&r.tunnel_id));
            ids.push(r.tunnel_id);
        }
    }
    assert_eq!(listing(&state).len(), ids.len());
}

#[test]
fn without_the_token_there_is_nothing() {
    let mut state = server();
    make(&mut state, "a", A, 0);
    let none = HeaderMap::new();
    let words: Vec<String> = vec!["w".to_string()];
    match state.create_tunnel(&none, &words, 0) {
        Ok(_) => panic!("let in"),
        Err(r) => assert_eq!((r.status, r.body.as_deref()), (404, Some("Not Found"))),
    }
    match state.list_tunnels(&none) {
        Ok(_) => panic!("let in"),
        Err(r) => assert_eq!((r.status, r.body.as_deref()), (404, Some("Not Found"))),
    }
    let d = state.delete_tunnel(&none, &A);
    assert_eq!((d.reply.status, d.reply.body.as_deref()), (404, Some("Not Found")));
    assert!(d.released.is_none());
    assert_eq!(listing(&state), vec![("a".to_string(), A)]);
}

#[test]
fn listing_has_every_tunnel_once() {
    let mut state = server();
    make(&mut state, "b", B, 0);
    make(&mut state, "a", A, 0);
    assert_eq!(listing(&state), vec![("a".to_string(), A), ("b".to_string(), B)]);
    let items = state.list_tunnels(&good()).unwrap_or_else(|_| panic!("refused"));
    for i in items {
        assert_eq!(i.public_url, format!("https://{}.tunnel.le.ht", i.subdomain));
    }
}

#[test]
fn deleted_tunnel_is_gone() {
    let mut state = server();
    make(&mut state, "a", A, 0);
    make(&mut state, "b", B, 0);
    let h = attach(&mut state, "a");
    let d = state.delete_tunnel(&good(), &A);
    assert_eq!((d.reply.status, d.reply.body), (204, None));
    let released = d.released.unwrap_or_else(|| panic!("nothing released"));
    assert_eq!((released.subdomain.as_str(), released.tunnel_id), ("a", A));
    assert_eq!(released.serial, h.serial);
    assert!(state.tunnel_at("a").is_none());
    assert!(matches!(state.find(&prelude(A)), Lookup::NoSuchTunnel));
    assert_eq!(listing(&state), vec![("b".to_string(), B)]);
    assert_eq!(state.reach(&released), Reached::Client(h.serial));
    assert!(state.release(&released));
    assert_eq!(state.reach(&released), Reached::Nobody);
    let again = state.delete_tunnel(&good(), &A);
    assert_eq!((again.reply.status, again.reply.body), (404, None));
    assert!(again.released.is_none());
}

#[test]
fn deletion_undoes_creation() {
    let mut state = server();
    make(&mut state, "b", B, 0);
    let before = listing(&state);
    make(&mut state, "a", A, 0);
    state.delete_tunnel(&good(), &A);
    assert_eq!(listing(&state), before);
    make(&mut state, "a", A, 0);
}

#[test]
fn client_is_let_in() {
    let mut state = server();
    make(&mut state, "a", A, 0);
    assert_eq!(reached(&state, "a"), Reached::Nobody);
    let h = match state.find(&prelude(A)) {
        Lookup::Found(h) => h,
        _ => panic!("not found"),
    };
    assert_eq!((h.subdomain.as_str(), h.tunnel_id), ("a", A));
    assert_eq!(state.let_in(&h), Admission::Admitted);
    assert_eq!(reached(&state, "a"), Reached::Busy);
    state.settle(&h, true);
    assert_eq!(reached(&state, "a"), Reached::Client(h.serial));
    state.settle(&h, false);
    assert_eq!(reached(&state, "a"), Reached::Client(h.serial));
}

#[test]
fn every_tunnel_has_a_number_of_its_own() {
    let mut state = server();
    make(&mut state, "a", A, 0);
    make(&mut state, "b", B, 0);
    let (a, b) = (handle(&state, "a"), handle(&state, "b"));
    assert_eq!((a.serial, b.serial), (0, 1));
    state.delete_tunnel(&good(), &A);
    make(&mut state, "a", A, 0);
    assert_eq!(handle(&state, "a").serial, 2);
    assert_eq!(state.let_in(&a), Admission::Admitted);
    assert_eq!(state.reach(&a), Reached::Busy);
    assert_eq!(reached(&state, "a"), Reached::Nobody);
}

#[test]
fn one_client_per_tunnel() {
    let mut state = server();
    make(&mut state, "a", A, 0);
    let h = handle(&state, "a");
    assert_eq!(state.let_in(&h), Admission::Admitted);
    assert_eq!(state.let_in(&h), Admission::Busy);
    state.settle(&h, true);
    assert_eq!(state.let_in(&h), Admission::AlreadyAttached);
    assert_eq!(reached(&state, "a"), Reached::Client(h.serial));
}

#[test]
fn failed_client_leaves_room_for_another() {
    let mut state = server();
    make(&mut state, "a", A, 0);
    let h = handle(&state, "a");
    assert_eq!(state.let_in(&h), Admission::Admitted);
    state.settle(&h, false);
    assert_eq!(reached(&state, "a"), Reached::Nobody);
    assert_eq!(state.let_in(&h), Admission::Admitted);
}

#[test]
fn wrong_token_learns_nothing() {
    let mut state = server();
    make(&mut state, "a", A, 0);
    for id in [A, B] {
        for token in [b"0123456789abcdeF".to_vec(), Vec::new(), b"0123456789abcdef0".to_vec()] {
            let p = Prelude { tunnel_id: id, token };
            assert!(matches!(state.find(&p), Lookup::BadToken));
        }
    }
    assert!(matches!(state.find(&prelude(B)), Lookup::NoSuchTunnel));
    assert!(is_found(&state, A));
}

#[test]
fn tunnel_ends_with_its_client() {
    let mut state = server();
    make(&mut state, "a", A, 0);
    make(&mut state, "b", B, 0);
    let a = attach(&mut state, "a");
    let b = attach(&mut state, "b");
    assert!(state.detach(&a));
    assert!(state.tunnel_at("a").is_none());
    assert_eq!(state.reach(&a), Reached::Nobody);
    assert!(matches!(state.find(&prelude(A)), Lookup::NoSuchTunnel));
    assert_eq!(reached(&state, "b"), Reached::Client(b.serial));
    assert_eq!(listing(&state), vec![("b".to_string(), B)]);
    make(&mut state, "a", A, 0);
}

#[test]
fn leaving_client_spares_the_next_tunnel_of_its_subdomain() {
    let mut state = server();
    make(&mut state, "a", A, 0);
    let old = attach(&mut state, "a");
    state.delete_tunnel(&good(), &A);
    assert!(state.release(&old));
    make(&mut state, "a", B, 0);
    let new = attach(&mut state, "a");
    assert!(state.detach(&old));
    assert_eq!(listing(&state), vec![("a".to_string(), B)]);
    assert_eq!(reached(&state, "a"), Reached::Client(new.serial));
    assert!(is_found(&state, B));
}

#[test]
fn leaving_client_waits_while_another_comes_in() {
    let mut state = server();
    make(&mut state, "a", A, 0);
    let h = attach(&mut state, "a");
    state.delete_tunnel(&good(), &A);
    assert!(state.release(&h));
    assert_eq!(state.let_in(&h), Admission::Admitted);
    assert!(!state.detach(&h));
    assert_eq!(state.reach(&h), Reached::Busy);
    state.settle(&h, true);
    assert_eq!(state.reach(&h), Reached::Client(h.serial));
    assert!(state.detach(&h));
    assert_eq!(state.reach(&h), Reached::Nobody);
}

#[test]
fn tunnel_deleted_while_its_client_comes_in() {
    let mut state = server();
    make(&mut state, "a", A, 0);
    let h = handle(&state, "a");
    assert_eq!(state.let_in(&h), Admission::Admitted);
    state.delete_tunnel(&good(), &A);
    assert!(!state.release(&h));
    assert_eq!(state.reach(&h), Reached::Busy);
    make(&mut state, "a", B, 0);
    state.settle(&h, true);
    assert_eq!(state.reach(&h), Reached::Client(h.serial));
    assert_eq!(state.let_in(&h), Admission::AlreadyAttached);
    assert_eq!(reached(&state, "a"), Reached::Nobody);
    assert!(state.release(&h));
    assert_eq!(state.reach(&h), Reached::Nobody);
}

#[test]
fn reaper_takes_what_has_waited_too_long() {
    let mut state = server();
    make(&mut state, "a", A, 1000);
    make(&mut state, "b", B, 2000);
    assert!(state.run_reaper(1000 + ATTACH_DEADLINE).is_empty());
    assert_eq!(state.run_reaper(1001 + ATTACH_DEADLINE), vec![("a".to_string(), A)]);
    assert_eq!(listing(&state), vec![("b".to_string(), B)]);
    assert!(matches!(state.find(&prelude(A)), Lookup::NoSuchTunnel));
    assert!(state.run_reaper(1001 + ATTACH_DEADLINE).is_empty());
    assert_eq!(state.run_reaper(u64::MAX).len(), 1);
    assert!(listing(&state).is_empty());
}

#[test]
fn reaper_takes_all_that_is_stale_at_once() {
    let mut state = server();
    make(&mut state, "a", A, 0);
    make(&mut state, "b", B, 0);
    let mut gone = state.run_reaper(ATTACH_DEADLINE + 1);
    gone.sort();
    assert_eq!(gone, vec![("a".to_string(), A), ("b".to_string(), B)]);
    assert_eq!(state.delete_tunnel(&good(), &A).reply.status, 404);
}

#[test]
fn reaper_spares_clients() {
    let mut state = server();
    make(&mut state, "a", A, 0);
    make(&mut state, "b", B, 0);
    let a = attach(&mut state, "a");
    let b = handle(&state, "b");
    assert_eq!(state.let_in(&b), Admission::Admitted);
    assert!(state.run_reaper(u64::MAX).is_empty());
    assert_eq!(reached(&state, "a"), Reached::Client(a.serial));
    state.settle(&b, true);
    assert_eq!(reached(&state, "b"), Reached::Client(b.serial));
}

#[test]
fn clock_that_stands_before_a_tunnel_reaps_nothing() {
    let mut state = server();
    make(&mut state, "a", A, u64::MAX);
    assert!(state.run_reaper(0).is_empty());
}
