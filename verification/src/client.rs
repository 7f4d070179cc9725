//! The client: how it comes by a tunnel, and what it does with the streams of the tunnel.

use http::{HeaderMap, HeaderValue};
use vstd::prelude::*;
use vstd::utf8::encode_utf8;

use crate::headers::{dropped, pass_headers, passed, Passage};
use crate::outside::digests::base64_of;
use crate::outside::messages::{headers_of, is_uri, uri_parses};
use crate::proto::{AuthReply, Prelude, PreludeView, TunnelId};
use crate::proxy::{
    carried, carry, law_forwarded_request_is_the_public_one, law_websocket_keeps_path_and_query,
    lines, or_root, planned, relayed, switched, target, text_if, uri_or_root, ws_planned,
    ProxyPlanView, RelayView, RequestView, SwitchView, TunnelView, UpstreamView, WsPlanView,
};
use crate::reply::{bad_gateway, pairs};
use crate::state::{CreateResp, CreateRespView, StateView};
use crate::text::{
    ascii_lower, chars_of, last_before, last_index, law_strip_takes_the_run, lemma_last_before,
    strip_end, text_of, without_end,
};
use crate::websocket::{carries_websocket, new_ws_key};

verus! {

/// What a client is told at its start.
pub struct Args {
    /// The public address of the server.
    pub url: String,
    /// The bearer token.
    pub secret: String,
    /// The address of the local service.
    pub local: String,
    /// The address of the data plane, in place of the one that the server offers.
    pub connect_addr: Option<String>,
}

/// [`Args`] over plain values.
#[verifier::ext_equal]
pub struct ArgsView {
    pub url: Seq<char>,
    pub secret: Seq<char>,
    pub local: Seq<char>,
    pub connect_addr: Option<Seq<char>>,
}

impl View for Args {
    type V = ArgsView;

    open spec fn view(&self) -> ArgsView {
        ArgsView {
            url: self.url@,
            secret: self.secret@,
            local: self.local@,
            connect_addr: text_if(self.connect_addr),
        }
    }
}

/// Where a client stands.
pub enum ClientPhase {
    /// It has done nothing yet.
    Idle,
    /// It has asked for a tunnel.
    Creating,
    /// It connects to the data plane for this tunnel.
    Connecting(TunnelId),
    /// It sends its prelude.
    Introducing,
    /// It waits for the answer to its prelude.
    AwaitingReply,
    /// It serves the streams of the tunnel.
    Serving,
    /// It has stopped.
    Stopped,
}

/// What happened to a client since its last action.
pub enum ClientEvent {
    Start,
    /// The request for a tunnel was answered, with a tunnel if the answer could be read.
    Created { status: u16, tunnel: Option<CreateResp> },
    /// The request for a tunnel could not be made.
    CreateFailed,
    /// The data plane was connected to, or could not be.
    Connected(bool),
    /// The prelude was sent, or could not be.
    Introduced(bool),
    /// The prelude was answered; nothing if the connection ended first.
    Replied(Option<AuthReply>),
    /// The streams of the tunnel ended.
    Ended,
}

/// [`ClientEvent`] over plain values.
pub enum ClientEventView {
    Start,
    Created { status: u16, tunnel: Option<CreateRespView> },
    CreateFailed,
    Connected(bool),
    Introduced(bool),
    Replied(Option<AuthReply>),
    Ended,
}

impl View for ClientEvent {
    type V = ClientEventView;

    open spec fn view(&self) -> ClientEventView {
        match *self {
            ClientEvent::Start => ClientEventView::Start,
            ClientEvent::Created { status, tunnel } => ClientEventView::Created {
                status,
                tunnel: match tunnel {
                    Some(t) => Some(t@),
                    None => None,
                },
            },
            ClientEvent::CreateFailed => ClientEventView::CreateFailed,
            ClientEvent::Connected(ok) => ClientEventView::Connected(ok),
            ClientEvent::Introduced(ok) => ClientEventView::Introduced(ok),
            ClientEvent::Replied(r) => ClientEventView::Replied(r),
            ClientEvent::Ended => ClientEventView::Ended,
        }
    }
}

/// Why a client stops.
#[derive(Debug, Copy, Clone, PartialEq, Eq, Structural)]
pub enum Stop {
    /// The streams of its tunnel ended.
    Finished,
    /// It got no tunnel.
    NoTunnel,
    /// The answer with its tunnel could not be read.
    BadAnswer,
    /// The address of the data plane has no port.
    MissingPort,
    /// The data plane could not be connected to.
    NoConnection,
    /// Its token does not fit into a prelude.
    TokenTooLong,
    /// The prelude could not be sent.
    NotIntroduced,
    /// The prelude was not answered.
    NoReply,
    /// The server rejected the connection.
    Rejected,
}

/// What a client does next.
pub enum ClientAction {
    /// Ask for a tunnel at this address, with this bearer token.
    Create { url: String, token: String },
    /// Connect to the data plane, and expect the certificate of this host.
    Connect { addr: String, host: String },
    /// Send these bytes.
    Send(Vec<u8>),
    /// Read the answer to the prelude.
    ReadReply,
    /// Serve the streams of the tunnel.
    Serve,
    /// Stop.
    Stop(Stop),
}

/// [`ClientAction`] over plain values.
pub enum ClientActionView {
    Create { url: Seq<char>, token: Seq<char> },
    Connect { addr: Seq<char>, host: Seq<char> },
    Send(Seq<u8>),
    ReadReply,
    Serve,
    Stop(Stop),
}

impl View for ClientAction {
    type V = ClientActionView;

    open spec fn view(&self) -> ClientActionView {
        match *self {
            ClientAction::Create { url, token } => ClientActionView::Create {
                url: url@,
                token: token@,
            },
            ClientAction::Connect { addr, host } => ClientActionView::Connect {
                addr: addr@,
                host: host@,
            },
            ClientAction::Send(b) => ClientActionView::Send(b@),
            ClientAction::ReadReply => ClientActionView::ReadReply,
            ClientAction::Serve => ClientActionView::Serve,
            ClientAction::Stop(s) => ClientActionView::Stop(s),
        }
    }
}

/// The address at which a tunnel is asked for.
pub open spec fn create_address(base: Seq<char>) -> Seq<char> {
    strip_end(base, '/') + "/api/tunnels"@
}

/// The host of an address: what stands in front of its last colon.
pub open spec fn host_of(addr: Seq<char>) -> Option<Seq<char>> {
    let at = last_before(addr, ':', addr.len() as int);
    if at < 0 {
        None
    } else {
        Some(addr.take(at))
    }
}

/// The address of the data plane: the one that the client was told, or else the one offered.
pub open spec fn data_address(told: Option<Seq<char>>, offered: Seq<char>) -> Seq<char> {
    match told {
        Some(addr) => addr,
        None => offered,
    }
}

/// The prelude of a client.
pub open spec fn introduction(id: TunnelId, secret: Seq<char>) -> PreludeView {
    PreludeView { tunnel_id: id@, token: encode_utf8(secret) }
}

/// A client's stopping.
pub open spec fn stopped(why: Stop) -> (ClientPhase, ClientActionView) {
    (ClientPhase::Stopped, ClientActionView::Stop(why))
}

/// Whether `event` can follow the last action.
pub open spec fn client_expects(phase: ClientPhase, event: ClientEventView) -> bool {
    match phase {
        ClientPhase::Idle => event is Start,
        ClientPhase::Creating => event is Created || event is CreateFailed,
        ClientPhase::Connecting(_) => event is Connected,
        ClientPhase::Introducing => event is Introduced,
        ClientPhase::AwaitingReply => event is Replied,
        ClientPhase::Serving => event is Ended,
        ClientPhase::Stopped => false,
    }
}

/// What a client that was told `args` does after `event`.
pub open spec fn client_step(args: ArgsView, phase: ClientPhase, event: ClientEventView) -> (
    ClientPhase,
    ClientActionView,
) {
    match (phase, event) {
        (ClientPhase::Idle, ClientEventView::Start) => (
            ClientPhase::Creating,
            ClientActionView::Create { url: create_address(args.url), token: args.secret },
        ),
        (ClientPhase::Creating, ClientEventView::Created { status, tunnel }) => if status < 200
            || status > 299 {
            stopped(Stop::NoTunnel)
        } else {
            match tunnel {
                None => stopped(Stop::BadAnswer),
                Some(t) => {
                    let addr = data_address(args.connect_addr, t.connect_addr);
                    match host_of(addr) {
                        None => stopped(Stop::MissingPort),
                        Some(host) => (
                            ClientPhase::Connecting(t.tunnel_id),
                            ClientActionView::Connect { addr, host },
                        ),
                    }
                },
            }
        },
        (ClientPhase::Creating, ClientEventView::CreateFailed) => stopped(Stop::NoTunnel),
        (ClientPhase::Connecting(id), ClientEventView::Connected(ok)) => if !ok {
            stopped(Stop::NoConnection)
        } else if introduction(id, args.secret).valid() {
            (
                ClientPhase::Introducing,
                ClientActionView::Send(introduction(id, args.secret).encoded()),
            )
        } else {
            stopped(Stop::TokenTooLong)
        },
        (ClientPhase::Introducing, ClientEventView::Introduced(ok)) => if ok {
            (ClientPhase::AwaitingReply, ClientActionView::ReadReply)
        } else {
            stopped(Stop::NotIntroduced)
        },
        (ClientPhase::AwaitingReply, ClientEventView::Replied(reply)) => match reply {
            None => stopped(Stop::NoReply),
            Some(AuthReply::Reject) => stopped(Stop::Rejected),
            Some(AuthReply::Accept) => (ClientPhase::Serving, ClientActionView::Serve),
        },
        _ => stopped(Stop::Finished),
    }
}

/// The address at which a tunnel is asked for.
pub fn create_url(base: &str) -> (r: String)
    ensures
        r@ == create_address(base@),
{
    let cs = chars_of(base);
    let mut url = text_of(without_end(&cs, '/'));
    url.append("/api/tunnels");
    url
}

/// The host of an address: what stands in front of its last colon.
pub fn sni_host(addr: &str) -> (r: Option<String>)
    ensures
        text_if(r) == host_of(addr@),
{
    let cs = chars_of(addr);
    match last_index(&cs, ':') {
        Some(at) => {
            let host = vstd::slice::slice_subrange(&cs, 0, at);
            proof {
                assert(host@ =~= addr@.take(at as int));
            }
            Some(text_of(host))
        },
        None => None,
    }
}

/// Decides what a client does next, from its start to its end.
pub fn run(args: &Args, phase: ClientPhase, event: ClientEvent) -> (r: (ClientPhase, ClientAction))
    requires
        client_expects(phase, event@),
    ensures
        (r.0, r.1@) == client_step(args@, phase, event@),
{
    match (phase, event) {
        (ClientPhase::Idle, ClientEvent::Start) => (
            ClientPhase::Creating,
            ClientAction::Create { url: create_url(args.url.as_str()), token: args.secret.clone() },
        ),
        (ClientPhase::Creating, ClientEvent::Created { status, tunnel }) => {
            if status < 200 || status > 299 {
                return (ClientPhase::Stopped, ClientAction::Stop(Stop::NoTunnel));
            }
            match tunnel {
                None => (ClientPhase::Stopped, ClientAction::Stop(Stop::BadAnswer)),
                Some(t) => {
                    let addr = match &args.connect_addr {
                        Some(a) => a.clone(),
                        None => t.connect_addr,
                    };
                    match sni_host(addr.as_str()) {
                        None => (ClientPhase::Stopped, ClientAction::Stop(Stop::MissingPort)),
                        Some(host) => (
                            ClientPhase::Connecting(t.tunnel_id),
                            ClientAction::Connect { addr, host },
                        ),
                    }
                },
            }
        },
        (ClientPhase::Creating, ClientEvent::CreateFailed) => (
            ClientPhase::Stopped,
            ClientAction::Stop(Stop::NoTunnel),
        ),
        (ClientPhase::Connecting(id), ClientEvent::Connected(ok)) => {
            if !ok {
                return (ClientPhase::Stopped, ClientAction::Stop(Stop::NoConnection));
            }
            let prelude = Prelude {
                tunnel_id: id,
                token: vstd::slice::slice_to_vec(args.secret.as_str().as_bytes()),
            };
            let mut bytes: Vec<u8> = Vec::new();
            proof {
                assert(prelude@ =~= introduction(id, args@.secret));
            }
            match prelude.write(&mut bytes) {
                Ok(_) => {
                    proof {
                        assert(bytes@ =~= prelude@.encoded());
                    }
                    (ClientPhase::Introducing, ClientAction::Send(bytes))
                },
                Err(_) => (ClientPhase::Stopped, ClientAction::Stop(Stop::TokenTooLong)),
            }
        },
        (ClientPhase::Introducing, ClientEvent::Introduced(ok)) => if ok {
            (ClientPhase::AwaitingReply, ClientAction::ReadReply)
        } else {
            (ClientPhase::Stopped, ClientAction::Stop(Stop::NotIntroduced))
        },
        (ClientPhase::AwaitingReply, ClientEvent::Replied(reply)) => match reply {
            None => (ClientPhase::Stopped, ClientAction::Stop(Stop::NoReply)),
            Some(AuthReply::Reject) => (ClientPhase::Stopped, ClientAction::Stop(Stop::Rejected)),
            Some(AuthReply::Accept) => (ClientPhase::Serving, ClientAction::Serve),
        },
        _ => (ClientPhase::Stopped, ClientAction::Stop(Stop::Finished)),
    }
}

/// The head of a request as it comes out of the tunnel.
pub struct StreamHead {
    pub method: String,
    pub path_and_query: Option<String>,
    pub authority: Option<String>,
    pub headers: HeaderMap<HeaderValue>,
}

/// [`StreamHead`] over plain values.
#[verifier::ext_equal]
pub struct StreamView {
    pub method: Seq<char>,
    pub path_and_query: Option<Seq<char>>,
    pub authority: Option<Seq<char>>,
    pub headers: Map<Seq<char>, Seq<Seq<u8>>>,
}

impl View for StreamHead {
    type V = StreamView;

    open spec fn view(&self) -> StreamView {
        StreamView {
            method: self.method@,
            path_and_query: text_if(self.path_and_query),
            authority: text_if(self.authority),
            headers: headers_of(self.headers),
        }
    }
}

/// The head of a request to the local service.
pub struct LocalHead {
    pub method: String,
    pub uri: String,
    /// The headers that came through the tunnel.
    pub headers: HeaderMap<HeaderValue>,
    /// The headers that the client sets itself; none of them is among the others.
    pub added: Vec<(String, String)>,
}

/// [`LocalHead`] over plain values.
#[verifier::ext_equal]
pub struct LocalView {
    pub method: Seq<char>,
    pub uri: Seq<char>,
    pub headers: Map<Seq<char>, Seq<Seq<u8>>>,
    pub added: Seq<(Seq<char>, Seq<char>)>,
}

impl View for LocalHead {
    type V = LocalView;

    open spec fn view(&self) -> LocalView {
        LocalView {
            method: self.method@,
            uri: self.uri@,
            headers: headers_of(self.headers),
            added: pairs(self.added@),
        }
    }
}

/// The path and the query that a request asks for; the root if it names none.
pub open spec fn path_asked(path_and_query: Option<Seq<char>>) -> Seq<char> {
    match path_and_query {
        Some(p) => p,
        None => "/"@,
    }
}

/// The request to the local service for a request of the tunnel.
pub open spec fn local_request(head: StreamView, parses: bool) -> LocalView {
    LocalView {
        method: head.method,
        uri: or_root(path_asked(head.path_and_query), parses),
        headers: passed(Passage::RequestOut, head.headers),
        added: match head.authority {
            Some(host) => seq![("host"@, host)],
            None => Seq::empty(),
        },
    }
}

/// The handshake with the local service for a WebSocket of the tunnel.
pub open spec fn local_handshake(head: StreamView, parses: bool, key: Seq<char>) -> LocalView {
    LocalView {
        method: "GET"@,
        uri: or_root(path_asked(head.path_and_query), parses),
        headers: passed(Passage::HandshakeOut, head.headers),
        added: seq![
            (
                "host"@,
                match head.authority {
                    Some(host) => host,
                    None => "localhost"@,
                },
            ),
            ("connection"@, "Upgrade"@),
            ("upgrade"@, "websocket"@),
            ("sec-websocket-key"@, key),
            ("sec-websocket-version"@, "13"@),
        ],
    }
}

/// What the tunnel gets for a handshake with the local service.
pub enum WsAnswer {
    /// The stream is refused with this status.
    Refuse(u16),
    /// The stream is open, with this status and these headers.
    Open { status: u16, headers: Vec<(String, Vec<u8>)> },
}

/// [`WsAnswer`] over plain values.
pub enum WsAnswerView {
    Refuse(u16),
    Open { status: u16, headers: Seq<(Seq<char>, Seq<u8>)> },
}

impl View for WsAnswer {
    type V = WsAnswerView;

    open spec fn view(&self) -> WsAnswerView {
        match *self {
            WsAnswer::Refuse(status) => WsAnswerView::Refuse(status),
            WsAnswer::Open { status, headers } => WsAnswerView::Open {
                status,
                headers: lines(headers@),
            },
        }
    }
}

/// What the tunnel gets when the local service answers a handshake.
pub open spec fn ws_answered(
    status: u16,
    headers: Map<Seq<char>, Seq<Seq<u8>>>,
) -> WsAnswerView {
    if status != 101 {
        WsAnswerView::Refuse(502)
    } else {
        WsAnswerView::Open {
            status: 200,
            headers: carried(headers, "sec-websocket-protocol"@) + carried(
                headers,
                "sec-websocket-extensions"@,
            ),
        }
    }
}

/// The path and the query that a request asks for; the root if it names none.
pub fn asked_path(path_and_query: &Option<String>) -> (r: String)
    ensures
        r@ == path_asked(text_if(*path_and_query)),
{
    match path_and_query {
        Some(p) => p.clone(),
        None => "/".to_owned(),
    }
}

/// The request to the local service, once it is known whether the path is a URI.
pub fn plan_http(head: StreamHead, parses: bool) -> (r: LocalHead)
    ensures
        r@ == local_request(head@, parses),
{
    let uri = uri_or_root(asked_path(&head.path_and_query), parses);
    let mut headers = head.headers;
    pass_headers(Passage::RequestOut, &mut headers);
    let mut added: Vec<(String, String)> = Vec::new();
    match &head.authority {
        Some(host) => {
            added.push(("host".to_owned(), host.clone()));
        },
        None => {},
    }
    proof {
        assert(pairs(added@) =~= local_request(head@, parses).added);
    }
    LocalHead { method: head.method, uri, headers, added }
}

/// The request to the local service for a request of the tunnel.
pub fn handle_http(head: StreamHead) -> (r: LocalHead)
    ensures
        r@ == local_request(head@, uri_parses(path_asked(head@.path_and_query))),
{
    let path = asked_path(&head.path_and_query);
    let parses = is_uri(path.as_str());
    plan_http(head, parses)
}

/// The head of a response as the tunnel carries it.
pub struct AnswerHead {
    pub status: u16,
    pub headers: HeaderMap<HeaderValue>,
}

/// [`AnswerHead`] over plain values.
#[verifier::ext_equal]
pub struct AnswerView {
    pub status: u16,
    pub headers: Map<Seq<char>, Seq<Seq<u8>>>,
}

impl View for AnswerHead {
    type V = AnswerView;

    open spec fn view(&self) -> AnswerView {
        AnswerView { status: self.status, headers: headers_of(self.headers) }
    }
}

/// The head of the local service's response as the tunnel carries it.
pub open spec fn http_answered(status: u16, headers: Map<Seq<char>, Seq<Seq<u8>>>) -> AnswerView {
    AnswerView { status, headers: passed(Passage::ResponseIn, headers) }
}

/// The head of the local service's response as the tunnel carries it: its status, and its
/// headers but for those that concern one connection only.
pub fn answer_http(status: u16, headers: HeaderMap<HeaderValue>) -> (r: AnswerHead)
    ensures
        r@ == http_answered(status, headers_of(headers)),
{
    let mut headers = headers;
    pass_headers(Passage::ResponseIn, &mut headers);
    AnswerHead { status, headers }
}

/// The handshake with the local service, with a given key, once it is known whether the path
/// is a URI.
pub fn plan_handshake(head: StreamHead, parses: bool, key: String) -> (r: LocalHead)
    ensures
        r@ == local_handshake(head@, parses, key@),
{
    let uri = uri_or_root(asked_path(&head.path_and_query), parses);
    let mut headers = head.headers;
    pass_headers(Passage::HandshakeOut, &mut headers);
    let host = match &head.authority {
        Some(host) => host.clone(),
        None => "localhost".to_owned(),
    };
    let ghost view = local_handshake(head@, parses, key@);
    let mut added: Vec<(String, String)> = Vec::new();
    added.push(("host".to_owned(), host));
    added.push(("connection".to_owned(), "Upgrade".to_owned()));
    added.push(("upgrade".to_owned(), "websocket".to_owned()));
    added.push(("sec-websocket-key".to_owned(), key));
    added.push(("sec-websocket-version".to_owned(), "13".to_owned()));
    proof {
        assert(pairs(added@) =~= view.added);
    }
    LocalHead { method: "GET".to_owned(), uri, headers, added }
}

/// The handshake with the local service for a WebSocket of the tunnel, with a key of its own.
pub fn handle_ws(head: StreamHead) -> (r: LocalHead)
    ensures
        exists|bytes: [u8; 16]|
            r@ == local_handshake(
                head@,
                uri_parses(path_asked(head@.path_and_query)),
                base64_of(#[trigger] bytes@),
            ),
{
    let path = asked_path(&head.path_and_query);
    let parses = is_uri(path.as_str());
    let key = new_ws_key();
    proof {
        let bytes = choose|bytes: [u8; 16]| key@ == base64_of(#[trigger] bytes@);
        assert(key@ == base64_of(bytes@));
    }
    plan_handshake(head, parses, key)
}

/// What the tunnel gets when the local service answers a handshake.
pub fn answer_ws(status: u16, headers: &HeaderMap<HeaderValue>) -> (r: WsAnswer)
    ensures
        r@ == ws_answered(status, headers_of(*headers)),
{
    if status != 101 {
        return WsAnswer::Refuse(502);
    }
    proof {
        reveal_strlit("sec-websocket-protocol");
        reveal_strlit("sec-websocket-extensions");
        assert(ascii_lower("sec-websocket-protocol"@) =~= "sec-websocket-protocol"@);
        assert(ascii_lower("sec-websocket-extensions"@) =~= "sec-websocket-extensions"@);
    }
    let mut out: Vec<(String, Vec<u8>)> = Vec::new();
    carry(&mut out, headers, "sec-websocket-protocol");
    carry(&mut out, headers, "sec-websocket-extensions");
    proof {
        assert(lines(out@) =~= carried(headers_of(*headers), "sec-websocket-protocol"@) + carried(
            headers_of(*headers),
            "sec-websocket-extensions"@,
        ));
    }
    WsAnswer::Open { status: 200, headers: out }
}

/// The host of an address is what its port is joined to, even where it has colons itself.
pub proof fn law_host_stands_before_its_port(host: Seq<char>, port: Seq<char>)
    requires
        !port.contains(':'),
    ensures
        host_of(host + (seq![':'] + port)) == Some(host),
{
    let addr = host + (seq![':'] + port);
    lemma_last_before(addr, ':', addr.len() as int);
    let at = last_before(addr, ':', addr.len() as int);
    assert(addr[host.len() as int] == ':');
    if at > host.len() {
        assert(addr[at] == port[at - host.len() - 1]);
    }
    assert(addr.take(at) =~= host);
}

/// None of the headers that the client sets itself comes through the tunnel as well.
pub proof fn law_added_headers_are_not_doubled(
    head: StreamView,
    parses: bool,
    key: Seq<char>,
    i: int,
)
    ensures
        0 <= i < local_request(head, parses).added.len() ==> !local_request(
            head,
            parses,
        ).headers.contains_key(local_request(head, parses).added[i].0),
        0 <= i < local_handshake(head, parses, key).added.len() ==> !local_handshake(
            head,
            parses,
            key,
        ).headers.contains_key(local_handshake(head, parses, key).added[i].0),
{
    reveal_strlit("host");
    reveal_strlit("connection");
    reveal_strlit("upgrade");
    reveal_strlit("sec-websocket-key");
    reveal_strlit("sec-websocket-version");
    assert(ascii_lower("host"@) =~= "host"@);
    assert(ascii_lower("connection"@) =~= "connection"@);
    assert(ascii_lower("upgrade"@) =~= "upgrade"@);
    assert(ascii_lower("sec-websocket-key"@) =~= "sec-websocket-key"@);
    assert(ascii_lower("sec-websocket-version"@) =~= "sec-websocket-version"@);
}

/// A WebSocket that the public asks for is one to the client as well, and no other request is.
pub proof fn law_websockets_are_recognised(
    state: StateView,
    sub: Seq<char>,
    head: RequestView,
    uri: Seq<char>,
    parses: bool,
)
    ensures
        ws_planned(head, uri, parses) matches WsPlanView::Connect { head: stream, .. }
            ==> carries_websocket(stream.method, stream.protocol),
        planned(state, sub, head) matches ProxyPlanView::Forward { head: stream, .. }
            ==> !carries_websocket(stream.method, stream.protocol),
{
    reveal_strlit("websocket");
    assert(ascii_lower("websocket"@) =~= "websocket"@);
}

/// A local service that refuses a WebSocket leaves the public with an error; one that opens it
/// makes the server switch protocols.
pub proof fn law_websocket_opens_only_with_the_service(
    status: u16,
    headers: Map<Seq<char>, Seq<Seq<u8>>>,
    passed_on: Map<Seq<char>, Seq<Seq<u8>>>,
    accept: Seq<char>,
)
    ensures
        match ws_answered(status, headers) {
            WsAnswerView::Refuse(s) => {
                &&& status != 101
                &&& switched(UpstreamView::Responded { status: s, headers: passed_on }, accept)
                    == SwitchView::Answer(bad_gateway())
            },
            WsAnswerView::Open { status: s, .. } => {
                &&& status == 101
                &&& switched(
                    UpstreamView::Responded { status: s, headers: passed_on },
                    accept,
                ) is Protocols
            },
        },
{
}

/// What the local service gets of a public request's headers: those that neither end of the
/// tunnel drops, with all their values. A handshake loses on its way in only what it would
/// lose on its way out.
pub proof fn law_request_headers_end_to_end(headers: Map<Seq<char>, Seq<Seq<u8>>>, name: Seq<char>)
    ensures
        ({
            let arrived = passed(Passage::RequestOut, passed(Passage::RequestIn, headers));
            &&& arrived.contains_key(name) <==> {
                &&& headers.contains_key(name)
                &&& !dropped(Passage::RequestIn, name)
                &&& !dropped(Passage::RequestOut, name)
            }
            &&& arrived.contains_key(name) ==> arrived[name] == headers[name]
        }),
        passed(Passage::HandshakeOut, passed(Passage::HandshakeIn, headers)) == passed(
            Passage::HandshakeOut,
            headers,
        ),
{
    assert(passed(Passage::HandshakeOut, passed(Passage::HandshakeIn, headers)) =~= passed(
        Passage::HandshakeOut,
        headers,
    ));
}

/// The public gets the local service's status, and its headers but for those that concern one
/// connection only: what a response loses on its way into the tunnel, it would lose on its way
/// out.
pub proof fn law_response_end_to_end(status: u16, headers: Map<Seq<char>, Seq<Seq<u8>>>)
    ensures
        ({
            let inside = http_answered(status, headers);
            relayed(
                UpstreamView::Responded { status: inside.status, headers: inside.headers },
            ) == (RelayView::Response { status, headers: passed(Passage::ResponseOut, headers) })
        }),
{
    assert(passed(Passage::ResponseOut, passed(Passage::ResponseIn, headers)) =~= passed(
        Passage::ResponseOut,
        headers,
    ));
}

/// A client goes on only with a server that accepted it.
pub proof fn law_client_serves_only_if_accepted(
    args: ArgsView,
    phase: ClientPhase,
    event: ClientEventView,
)
    requires
        client_step(args, phase, event).1 is Serve,
    ensures
        phase is AwaitingReply,
        event == ClientEventView::Replied(Some(AuthReply::Accept)),
{
}

/// A tunnel is asked for under the server's address, whatever slashes stand behind it.
pub proof fn law_tunnel_is_asked_for_at_the_server(base: Seq<char>, slashes: Seq<char>)
    requires
        base.len() > 0 ==> base.last() != '/',
        forall|i: int| 0 <= i < slashes.len() ==> slashes[i] == '/',
    ensures
        create_address(base + slashes) == base + "/api/tunnels"@,
{
    let all = base + slashes;
    law_strip_takes_the_run(all, '/');
    let n = strip_end(all, '/').len() as int;
    if n > base.len() {
        assert(all[n - 1] == slashes[n - 1 - base.len()]);
        assert(strip_end(all, '/').last() == all[n - 1]);
    }
    if n < base.len() {
        assert(all[base.len() - 1] == base.last());
    }
    assert(all.take(n) =~= base);
}

/// An address has a host exactly if it has a colon.
pub proof fn law_host_needs_a_port(addr: Seq<char>)
    ensures
        host_of(addr) is None <==> !addr.contains(':'),
{
    lemma_last_before(addr, ':', addr.len() as int);
    let at = last_before(addr, ':', addr.len() as int);
    if at >= 0 {
        assert(addr.contains(addr[at]));
    }
}

/// A client step by step. It asks for a tunnel with its secret; goes on with any answer of the two
/// hundreds that can be read and names a data plane with a port, or with the address that it was
/// told; introduces itself once it is connected; and serves once it is accepted. It stops for
/// nothing else than what it meets on the way, and says for what.
pub proof fn law_client_step_by_step(
    args: ArgsView,
    id: TunnelId,
    status: u16,
    tunnel: CreateRespView,
)
    ensures
        ({
            let (phase, action) = client_step(args, ClientPhase::Idle, ClientEventView::Start);
            &&& phase == ClientPhase::Creating
            &&& action == (ClientActionView::Create {
                url: create_address(args.url),
                token: args.secret,
            })
        }),
        client_step(args, ClientPhase::Creating, ClientEventView::CreateFailed).1
            == ClientActionView::Stop(Stop::NoTunnel),
        !(200 <= status <= 299) ==> client_step(
            args,
            ClientPhase::Creating,
            ClientEventView::Created { status, tunnel: Some(tunnel) },
        ).1 == ClientActionView::Stop(Stop::NoTunnel) && client_step(
            args,
            ClientPhase::Creating,
            ClientEventView::Created { status, tunnel: None },
        ).1 == ClientActionView::Stop(Stop::NoTunnel),
        200 <= status <= 299 ==> client_step(
            args,
            ClientPhase::Creating,
            ClientEventView::Created { status, tunnel: None },
        ).1 == ClientActionView::Stop(Stop::BadAnswer),
        200 <= status <= 299 ==> ({
            let addr = match args.connect_addr {
                Some(told) => told,
                None => tunnel.connect_addr,
            };
            let (phase, action) = client_step(
                args,
                ClientPhase::Creating,
                ClientEventView::Created { status, tunnel: Some(tunnel) },
            );
            &&& host_of(addr) is None ==> action == ClientActionView::Stop(Stop::MissingPort)
            &&& host_of(addr) is Some ==> {
                &&& phase == ClientPhase::Connecting(tunnel.tunnel_id)
                &&& action == (ClientActionView::Connect { addr, host: host_of(addr)->0 })
            }
        }),
        client_step(args, ClientPhase::Connecting(id), ClientEventView::Connected(false)).1
            == ClientActionView::Stop(Stop::NoConnection),
        client_step(args, ClientPhase::Introducing, ClientEventView::Introduced(true)) == (
            ClientPhase::AwaitingReply,
            ClientActionView::ReadReply,
        ),
        client_step(args, ClientPhase::Introducing, ClientEventView::Introduced(false)).1
            == ClientActionView::Stop(Stop::NotIntroduced),
        client_step(
            args,
            ClientPhase::AwaitingReply,
            ClientEventView::Replied(Some(AuthReply::Accept)),
        ) == (ClientPhase::Serving, ClientActionView::Serve),
        client_step(
            args,
            ClientPhase::AwaitingReply,
            ClientEventView::Replied(Some(AuthReply::Reject)),
        ).1 == ClientActionView::Stop(Stop::Rejected),
        client_step(args, ClientPhase::AwaitingReply, ClientEventView::Replied(None)).1
            == ClientActionView::Stop(Stop::NoReply),
        client_step(args, ClientPhase::Serving, ClientEventView::Ended).1
            == ClientActionView::Stop(Stop::Finished),
{
}

/// A client takes every answer to what it asked for, and stops only once.
pub proof fn law_client_takes_every_answer(
    args: ArgsView,
    phase: ClientPhase,
    event: ClientEventView,
    status: u16,
    tunnel: Option<CreateRespView>,
    reply: Option<AuthReply>,
    ok: bool,
)
    ensures
        client_expects(ClientPhase::Idle, ClientEventView::Start),
        client_expects(phase, event) ==> ({
            let (next, action) = client_step(args, phase, event);
            match action {
                ClientActionView::Create { .. } => {
                    &&& client_expects(next, ClientEventView::Created { status, tunnel })
                    &&& client_expects(next, ClientEventView::CreateFailed)
                },
                ClientActionView::Connect { .. } => client_expects(
                    next,
                    ClientEventView::Connected(ok),
                ),
                ClientActionView::Send(_) => client_expects(next, ClientEventView::Introduced(ok)),
                ClientActionView::ReadReply => client_expects(
                    next,
                    ClientEventView::Replied(reply),
                ),
                ClientActionView::Serve => client_expects(next, ClientEventView::Ended),
                ClientActionView::Stop(_) => next == ClientPhase::Stopped,
            }
        }),
{
}

/// The local service gets a request with the method, the path and query and the headers that came
/// through the tunnel, and with the host that it was for.
pub proof fn law_local_request(head: StreamView, parses: bool)
    ensures
        ({
            let local = local_request(head, parses);
            let path = match head.path_and_query {
                Some(p) => p,
                None => "/"@,
            };
            &&& local.method == head.method
            &&& local.uri == if parses {
                path
            } else {
                "/"@
            }
            &&& local.headers == passed(Passage::RequestOut, head.headers)
            &&& head.authority is Some ==> local.added == seq![("host"@, head.authority->0)]
            &&& head.authority is None ==> local.added.len() == 0
        }),
{
}

/// The local service gets a WebSocket as a `GET` with the path and query and the headers that came
/// through the tunnel, and with the handshake's own headers, among them the key as it is.
pub proof fn law_local_handshake(head: StreamView, parses: bool, key: Seq<char>)
    ensures
        ({
            let local = local_handshake(head, parses, key);
            let path = match head.path_and_query {
                Some(p) => p,
                None => "/"@,
            };
            let host = match head.authority {
                Some(a) => a,
                None => "localhost"@,
            };
            &&& local.method == "GET"@
            &&& local.uri == if parses {
                path
            } else {
                "/"@
            }
            &&& local.headers == passed(Passage::HandshakeOut, head.headers)
            &&& local.added == seq![
                ("host"@, host),
                ("connection"@, "Upgrade"@),
                ("upgrade"@, "websocket"@),
                ("sec-websocket-key"@, key),
                ("sec-websocket-version"@, "13"@),
            ]
        }),
{
}

/// From the public to the local service a request keeps its method and its path and query, to the
/// last character: what the client is asked for is what stands behind the tunnel's host in the
/// address that the server sent.
pub proof fn law_path_and_query_end_to_end(
    state: StateView,
    sub: Seq<char>,
    head: RequestView,
    inside: TunnelView,
    stream: StreamView,
)
    requires
        planned(state, sub, head) matches ProxyPlanView::Forward { head: t, .. } && t == inside,
        head.path_and_query is Some,
        uri_parses("https://"@ + sub + "."@ + state.domain + head.path_and_query->0),
        uri_parses(head.path_and_query->0),
        stream.method == inside.method,
        stream.path_and_query == Some(inside.uri.skip(8 + sub.len() as int + 1 + state.domain.len())),
    ensures
        ({
            let local = local_request(stream, uri_parses(stream.path_and_query->0));
            &&& local.method == head.method
            &&& local.uri == head.path_and_query->0
        }),
{
    law_forwarded_request_is_the_public_one(state, sub, head, inside);
}

/// A WebSocket keeps its path and query on the same way.
pub proof fn law_websocket_path_end_to_end(
    sub: Seq<char>,
    domain: Seq<char>,
    head: RequestView,
    inside: TunnelView,
    stream: StreamView,
    key: Seq<char>,
)
    requires
        ws_planned(head, target(sub, domain, head.path_and_query), true) matches WsPlanView::Connect {
            head: t,
            ..
        } && t == inside,
        head.path_and_query is Some,
        stream.path_and_query == Some(inside.uri.skip(8 + sub.len() as int + 1 + domain.len())),
    ensures
        local_handshake(stream, true, key).uri == head.path_and_query->0,
{
    law_websocket_keeps_path_and_query(head, sub, domain, true);
}

/// The local service's response goes into the tunnel with its status and with every header but for
/// those that stop there. A WebSocket is open exactly if the service switched protocols, and then
/// carries the service's choice of protocol and extensions.
pub proof fn law_local_answer(status: u16, headers: Map<Seq<char>, Seq<Seq<u8>>>)
    ensures
        http_answered(status, headers).status == status,
        http_answered(status, headers).headers == passed(Passage::ResponseIn, headers),
        status == 101 ==> ws_answered(status, headers) == (WsAnswerView::Open {
            status: 200,
            headers: carried(headers, "sec-websocket-protocol"@) + carried(
                headers,
                "sec-websocket-extensions"@,
            ),
        }),
        status != 101 ==> ws_answered(status, headers) == WsAnswerView::Refuse(502),
{
}

/// What a client is told, and the heads that it works on, are seen by contracts as they are.
pub proof fn law_client_values_are_seen_whole(
    args: Args,
    stream: StreamHead,
    local: LocalHead,
    answer: AnswerHead,
)
    ensures
        args@.url == args.url@,
        args@.secret == args.secret@,
        args@.local == args.local@,
        args@.connect_addr is Some <==> args.connect_addr is Some,
        args.connect_addr is Some ==> args@.connect_addr == Some(args.connect_addr->0@),
        stream@.method == stream.method@,
        stream@.path_and_query is Some <==> stream.path_and_query is Some,
        stream.path_and_query is Some ==> stream@.path_and_query == Some(
            stream.path_and_query->0@,
        ),
        stream@.authority is Some <==> stream.authority is Some,
        stream.authority is Some ==> stream@.authority == Some(stream.authority->0@),
        stream@.headers == headers_of(stream.headers),
        local@.method == local.method@,
        local@.uri == local.uri@,
        local@.headers == headers_of(local.headers),
        local@.added == pairs(local.added@),
        answer@.status == answer.status,
        answer@.headers == headers_of(answer.headers),
{
}

/// What happens to a client, and what it does about it, is seen by contracts as it is.
pub proof fn law_client_steps_are_seen_whole(e: ClientEvent, a: ClientAction, w: WsAnswer)
    ensures
        match e {
            ClientEvent::Start => e@ is Start,
            ClientEvent::Created { status, tunnel } => match tunnel {
                Some(t) => e@ == (ClientEventView::Created { status, tunnel: Some(t@) }),
                None => e@ == (ClientEventView::Created { status, tunnel: None }),
            },
            ClientEvent::CreateFailed => e@ is CreateFailed,
            ClientEvent::Connected(ok) => e@ == ClientEventView::Connected(ok),
            ClientEvent::Introduced(ok) => e@ == ClientEventView::Introduced(ok),
            ClientEvent::Replied(r) => e@ == ClientEventView::Replied(r),
            ClientEvent::Ended => e@ is Ended,
        },
        match a {
            ClientAction::Create { url, token } => a@ == (ClientActionView::Create {
                url: url@,
                token: token@,
            }),
            ClientAction::Connect { addr, host } => a@ == (ClientActionView::Connect {
                addr: addr@,
                host: host@,
            }),
            ClientAction::Send(b) => a@ == ClientActionView::Send(b@),
            ClientAction::ReadReply => a@ is ReadReply,
            ClientAction::Serve => a@ is Serve,
            ClientAction::Stop(why) => a@ == ClientActionView::Stop(why),
        },
        match w {
            WsAnswer::Refuse(status) => w@ == WsAnswerView::Refuse(status),
            WsAnswer::Open { status, headers } => w@ == (WsAnswerView::Open {
                status,
                headers: lines(headers@),
            }),
        },
{
}

} // verus!
