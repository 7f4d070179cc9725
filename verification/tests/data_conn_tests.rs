use http::{HeaderMap, HeaderValue};
use tunneld::data_conn::{handle_data_conn, ConnAction, ConnEvent, ConnPhase, Refusal};
use tunneld::proto::{Prelude, TunnelId};
use tunneld::state::{run, AppState, Args, Reached};

const SECRET: &str = "0123456789abcdef";
const ID: TunnelId = [7; 16];

fn server() -> AppState {
    let mut state = run(Args {
        secret: SECRET.to_string(),
        domain: "tunnel.le.ht".to_string(),
        public_base: "https://tunnel.le.ht".to_string(),
        data_public: "tunnel.le.ht:7844".to_string(),
    })
    .unwrap_or_else(|_| panic!("refused"));
    assert!(state.create_with("a".to_string(), ID, 0).is_ok());
    state
}

fn says(token: &str, id: TunnelId) -> ConnEvent {
    ConnEvent::Prelude(Prelude { tunnel_id: id, token: token.as_bytes().to_vec() })
}

fn refusal(r: (ConnPhase, ConnAction)) -> Option<Refusal> {
    match r {
        (ConnPhase::Closed, ConnAction::Reject(why)) => Some(why),
        _ => None,
    }
}

fn reached(state: &AppState, sub: &str) -> Reached {
    match state.tunnel_at(sub) {
        Some(h) => state.reach(&h),
        None => Reached::Nobody,
    }
}

fn waiting(state: &mut AppState) -> ConnPhase {
    let (phase, action) = handle_data_conn(ConnPhase::Reading, state, says(SECRET, ID));
    assert!(matches!(action, ConnAction::AwaitSlot(0)));
    phase
}

fn replying(state: &mut AppState) -> ConnPhase {
    let phase = waiting(state);
    let (phase, action) = handle_data_conn(phase, state, ConnEvent::Turn);
    assert!(matches!(action, ConnAction::ReplyAccept));
    phase
}

fn delete(state: &mut AppState) {
    let mut m = HeaderMap::new();
    m.insert("authorization", HeaderValue::from_static("Bearer 0123456789abcdef"));
    assert!(state.delete_tunnel(&m, &ID).released.is_some());
}

#[test]
fn client_from_start_to_end() {
    let mut state = server();
    let s = &mut state;
    let (phase, action) = handle_data_conn(ConnPhase::Accepting, s, ConnEvent::Tls(true));
    assert!(matches!(action, ConnAction::ReadPrelude));
    let (phase, action) = handle_data_conn(phase, s, says(SECRET, ID));
    assert!(matches!(action, ConnAction::AwaitSlot(0)));
    assert_eq!(reached(s, "a"), Reached::Nobody);
    let (phase, action) = handle_data_conn(phase, s, ConnEvent::Turn);
    assert!(matches!(action, ConnAction::ReplyAccept));
    assert_eq!(reached(s, "a"), Reached::Busy);
    let (phase, action) = handle_data_conn(phase, s, ConnEvent::ReplySent(true));
    assert!(matches!(action, ConnAction::Handshake));
    let (phase, action) = handle_data_conn(phase, s, ConnEvent::Handshake(true));
    assert!(matches!(action, ConnAction::Drive(0)));
    assert_eq!(reached(s, "a"), Reached::Client(0));
    let (phase, action) = handle_data_conn(phase, s, ConnEvent::Ended);
    assert!(matches!(action, ConnAction::AwaitSlot(0)));
    assert_eq!(reached(s, "a"), Reached::Client(0));
    let (phase, action) = handle_data_conn(phase, s, ConnEvent::Turn);
    assert!(matches!(action, ConnAction::Close));
    assert!(matches!(phase, ConnPhase::Closed));
    assert!(s.tunnel_at("a").is_none());
    assert_eq!(
        refusal(handle_data_conn(ConnPhase::Reading, s, says(SECRET, ID))),
        Some(Refusal::NoSuchTunnel)
    );
}

#[test]
fn connection_without_tls_is_closed() {
    let (phase, action) =
        handle_data_conn(ConnPhase::Accepting, &mut server(), ConnEvent::Tls(false));
    assert!(matches!(phase, ConnPhase::Closed));
    assert!(matches!(action, ConnAction::Close));
}

#[test]
fn refusals() {
    let mut state = server();
    let s = &mut state;
    let reading = || ConnPhase::Reading;
    assert_eq!(
        refusal(handle_data_conn(reading(), s, ConnEvent::PreludeFailed)),
        Some(Refusal::BadPrelude)
    );
    assert_eq!(
        refusal(handle_data_conn(reading(), s, says("0123456789abcdeF", ID))),
        Some(Refusal::BadToken)
    );
    assert_eq!(
        refusal(handle_data_conn(reading(), s, says(SECRET, [8; 16]))),
        Some(Refusal::NoSuchTunnel)
    );
    let phase = replying(s);
    let (phase, _) = handle_data_conn(phase, s, ConnEvent::ReplySent(true));
    handle_data_conn(phase, s, ConnEvent::Handshake(true));
    let second = waiting(s);
    assert_eq!(
        refusal(handle_data_conn(second, s, ConnEvent::Turn)),
        Some(Refusal::AlreadyAttached)
    );
    assert_eq!(reached(s, "a"), Reached::Client(0));
}

#[test]
fn second_client_waits_for_the_first() {
    let mut state = server();
    let s = &mut state;
    let first = replying(s);
    let second = waiting(s);
    let (second, action) = handle_data_conn(second, s, ConnEvent::Turn);
    assert!(matches!(action, ConnAction::AwaitSlot(0)));
    let (closed, action) = handle_data_conn(first, s, ConnEvent::ReplySent(false));
    assert!(matches!(action, ConnAction::Close));
    assert!(matches!(closed, ConnPhase::Closed));
    let (second, action) = handle_data_conn(second, s, ConnEvent::Turn);
    assert!(matches!(action, ConnAction::ReplyAccept));
    assert!(matches!(second, ConnPhase::Replying(_)));
}

#[test]
fn waiting_client_of_a_deleted_tunnel_is_refused_if_the_first_came_in() {
    let mut state = server();
    let s = &mut state;
    let first = replying(s);
    let second = waiting(s);
    delete(s);
    let (first, _) = handle_data_conn(first, s, ConnEvent::ReplySent(true));
    let (_, action) = handle_data_conn(first, s, ConnEvent::Handshake(true));
    assert!(matches!(action, ConnAction::Drive(0)));
    assert_eq!(
        refusal(handle_data_conn(second, s, ConnEvent::Turn)),
        Some(Refusal::AlreadyAttached)
    );
}

#[test]
fn waiting_client_of_a_deleted_tunnel_comes_in_if_the_first_failed() {
    let mut state = server();
    let s = &mut state;
    let first = replying(s);
    let second = waiting(s);
    delete(s);
    handle_data_conn(first, s, ConnEvent::ReplySent(false));
    let (_, action) = handle_data_conn(second, s, ConnEvent::Turn);
    assert!(matches!(action, ConnAction::ReplyAccept));
    assert!(s.tunnel_at("a").is_none());
}

#[test]
fn failed_handshake_leaves_the_tunnel() {
    let mut state = server();
    let s = &mut state;
    let phase = replying(s);
    let (phase, _) = handle_data_conn(phase, s, ConnEvent::ReplySent(true));
    let (phase, action) = handle_data_conn(phase, s, ConnEvent::Handshake(false));
    assert!(matches!(phase, ConnPhase::Closed));
    assert!(matches!(action, ConnAction::Close));
    assert_eq!(reached(s, "a"), Reached::Nobody);
    replying(s);
}

#[test]
fn client_of_a_deleted_tunnel_takes_nothing_with_it() {
    let mut state = server();
    let s = &mut state;
    let phase = replying(s);
    delete(s);
    let (phase, _) = handle_data_conn(phase, s, ConnEvent::ReplySent(true));
    let (phase, _) = handle_data_conn(phase, s, ConnEvent::Handshake(true));
    assert!(s.create_with("a".to_string(), [8; 16], 0).is_ok());
    let (phase, _) = handle_data_conn(phase, s, ConnEvent::Ended);
    let (phase, _) = handle_data_conn(phase, s, ConnEvent::Turn);
    assert!(matches!(phase, ConnPhase::Closed));
    assert!(s.tunnel_at("a").is_some());
}

#[test]
fn leaving_client_waits_for_its_turn() {
    let mut state = server();
    let s = &mut state;
    let first = replying(s);
    let second = waiting(s);
    let tunnel = s.tunnel_at("a").unwrap_or_else(|| panic!("no such tunnel"));
    delete(s);
    let (first, _) = handle_data_conn(first, s, ConnEvent::ReplySent(true));
    let (first, _) = handle_data_conn(first, s, ConnEvent::Handshake(true));
    assert!(s.release(&tunnel));
    let (second, action) = handle_data_conn(second, s, ConnEvent::Turn);
    assert!(matches!(action, ConnAction::ReplyAccept));
    let (first, _) = handle_data_conn(first, s, ConnEvent::Ended);
    let (first, action) = handle_data_conn(first, s, ConnEvent::Turn);
    assert!(matches!(action, ConnAction::AwaitSlot(0)));
    let (second, _) = handle_data_conn(second, s, ConnEvent::ReplySent(true));
    handle_data_conn(second, s, ConnEvent::Handshake(true));
    assert_eq!(s.reach(&tunnel), Reached::Client(0));
    let (_, action) = handle_data_conn(first, s, ConnEvent::Turn);
    assert!(matches!(action, ConnAction::Close));
    assert_eq!(s.reach(&tunnel), Reached::Nobody);
}
