//! Public requests on their way into a tunnel, and the answers on their way out.

use http::{HeaderMap, HeaderValue};
use vstd::prelude::*;

use crate::headers::{
    first_text, first_value, get_text, get_value, pass_headers, passed, text_of_value, value_text,
    visible, Passage,
};
use crate::outside::messages::{headers_of, is_uri, plain_name, uri_parses};
use crate::reply::{
    bad_gateway, gateway_timeout, generic_502, generic_504, text_reply, Reply, ReplyView,
};
use crate::state::{AppState, Handle, HandleView, Reached, Slot, StateView};
use crate::text::ascii_lower;
use crate::websocket::{accept_of, asks_for_websocket, is_ws_upgrade, ws_accept};

verus! {

/// The head of a public request.
pub struct RequestHead {
    pub method: String,
    /// The path and the query, where the request has them.
    pub path_and_query: Option<String>,
    pub headers: HeaderMap<HeaderValue>,
}

/// [`RequestHead`] over plain values.
#[verifier::ext_equal]
pub struct RequestView {
    pub method: Seq<char>,
    pub path_and_query: Option<Seq<char>>,
    pub headers: Map<Seq<char>, Seq<Seq<u8>>>,
}

/// A text, if there is one.
pub open spec fn text_if(s: Option<String>) -> Option<Seq<char>> {
    match s {
        Some(t) => Some(t@),
        None => None,
    }
}

impl View for RequestHead {
    type V = RequestView;

    open spec fn view(&self) -> RequestView {
        RequestView {
            method: self.method@,
            path_and_query: text_if(self.path_and_query),
            headers: headers_of(self.headers),
        }
    }
}

/// The head of a request as the tunnel carries it.
pub struct TunnelHead {
    pub method: String,
    pub uri: String,
    /// What the stream goes on as, where it is opened to go on as something else.
    pub protocol: Option<String>,
    pub headers: HeaderMap<HeaderValue>,
}

/// [`TunnelHead`] over plain values.
#[verifier::ext_equal]
pub struct TunnelView {
    pub method: Seq<char>,
    pub uri: Seq<char>,
    pub protocol: Option<Seq<char>>,
    pub headers: Map<Seq<char>, Seq<Seq<u8>>>,
}

impl View for TunnelHead {
    type V = TunnelView;

    open spec fn view(&self) -> TunnelView {
        TunnelView {
            method: self.method@,
            uri: self.uri@,
            protocol: text_if(self.protocol),
            headers: headers_of(self.headers),
        }
    }
}

/// What to do with a public request.
pub enum ProxyPlan {
    /// Answer it.
    Answer(Reply),
    /// Ask again about this tunnel when the client that is being let in is settled.
    Wait { tunnel: Handle, request: RequestHead },
    /// Go on as a WebSocket, through the client of the tunnel with this serial number.
    WebSocket { client: u64, request: RequestHead },
    /// Send it to the client of the tunnel with this serial number.
    Forward { client: u64, head: TunnelHead },
}

/// [`ProxyPlan`] over plain values.
pub enum ProxyPlanView {
    Answer(ReplyView),
    Wait { tunnel: HandleView, request: RequestView },
    WebSocket { client: u64, request: RequestView },
    Forward { client: u64, head: TunnelView },
}

impl View for ProxyPlan {
    type V = ProxyPlanView;

    open spec fn view(&self) -> ProxyPlanView {
        match *self {
            ProxyPlan::Answer(r) => ProxyPlanView::Answer(r@),
            ProxyPlan::Wait { tunnel, request } => ProxyPlanView::Wait {
                tunnel: tunnel@,
                request: request@,
            },
            ProxyPlan::WebSocket { client, request } => ProxyPlanView::WebSocket {
                client,
                request: request@,
            },
            ProxyPlan::Forward { client, head } => ProxyPlanView::Forward { client, head: head@ },
        }
    }
}

impl ProxyPlanView {
    /// The client that the request is sent to, by the serial number of its tunnel.
    pub open spec fn client(self) -> Option<u64> {
        match self {
            ProxyPlanView::Forward { client, .. } => Some(client),
            ProxyPlanView::WebSocket { client, .. } => Some(client),
            _ => None,
        }
    }
}

/// What to do with a public request that asks for a WebSocket.
pub enum WsPlan {
    /// Answer it.
    Answer(Reply),
    /// Open a stream with this head, and answer the key with `accept` when it is open.
    Connect { head: TunnelHead, accept: String },
}

/// [`WsPlan`] over plain values.
pub enum WsPlanView {
    Answer(ReplyView),
    Connect { head: TunnelView, accept: Seq<char> },
}

impl View for WsPlan {
    type V = WsPlanView;

    open spec fn view(&self) -> WsPlanView {
        match *self {
            WsPlan::Answer(r) => WsPlanView::Answer(r@),
            WsPlan::Connect { head, accept } => WsPlanView::Connect {
                head: head@,
                accept: accept@,
            },
        }
    }
}

/// What came back through the tunnel.
pub enum Upstream {
    /// The request could not be sent, or the client failed.
    Failed,
    /// Nothing came in time.
    TimedOut,
    /// The client answered.
    Responded { status: u16, headers: HeaderMap<HeaderValue> },
}

/// [`Upstream`] over plain values.
pub enum UpstreamView {
    Failed,
    TimedOut,
    Responded { status: u16, headers: Map<Seq<char>, Seq<Seq<u8>>> },
}

impl View for Upstream {
    type V = UpstreamView;

    open spec fn view(&self) -> UpstreamView {
        match *self {
            Upstream::Failed => UpstreamView::Failed,
            Upstream::TimedOut => UpstreamView::TimedOut,
            Upstream::Responded { status, headers } => UpstreamView::Responded {
                status,
                headers: headers_of(headers),
            },
        }
    }
}

/// What the public gets for a request that went through the tunnel.
pub enum Relay {
    /// An answer of the server's own.
    Answer(Reply),
    /// The client's answer, followed by its body.
    Response { status: u16, headers: HeaderMap<HeaderValue> },
}

/// [`Relay`] over plain values.
pub enum RelayView {
    Answer(ReplyView),
    Response { status: u16, headers: Map<Seq<char>, Seq<Seq<u8>>> },
}

impl View for Relay {
    type V = RelayView;

    open spec fn view(&self) -> RelayView {
        match *self {
            Relay::Answer(r) => RelayView::Answer(r@),
            Relay::Response { status, headers } => RelayView::Response {
                status,
                headers: headers_of(headers),
            },
        }
    }
}

/// The status of the answer that switches protocols.
pub const SWITCHING_PROTOCOLS: u16 = 101;

/// What the public gets for a request to go on as a WebSocket.
pub enum Switch {
    /// An answer of the server's own.
    Answer(Reply),
    /// Switching of protocols, with this status and these headers.
    Protocols { status: u16, headers: Vec<(String, Vec<u8>)> },
}

/// [`Switch`] over plain values.
pub enum SwitchView {
    Answer(ReplyView),
    Protocols { status: u16, headers: Seq<(Seq<char>, Seq<u8>)> },
}

/// The names and values of a list of headers.
pub open spec fn lines(v: Seq<(String, Vec<u8>)>) -> Seq<(Seq<char>, Seq<u8>)> {
    Seq::new(v.len(), |i: int| (v[i].0@, v[i].1@))
}

impl View for Switch {
    type V = SwitchView;

    open spec fn view(&self) -> SwitchView {
        match *self {
            Switch::Answer(r) => SwitchView::Answer(r@),
            Switch::Protocols { status, headers } => SwitchView::Protocols {
                status,
                headers: lines(headers@),
            },
        }
    }
}

/// The address that a request has inside the tunnel.
pub open spec fn target(sub: Seq<char>, domain: Seq<char>, path_and_query: Option<Seq<char>>) -> Seq<
    char,
> {
    "https://"@ + sub + "."@ + domain + match path_and_query {
        Some(p) => p,
        None => "/"@,
    }
}

/// A text if it is a URI, and the root otherwise.
pub open spec fn or_root(uri: Seq<char>, parses: bool) -> Seq<char> {
    if parses {
        uri
    } else {
        "/"@
    }
}

/// The head of a public request as the tunnel carries it, once it is known whether its address
/// inside the tunnel, `uri`, is a URI.
pub open spec fn tunneled(head: RequestView, uri: Seq<char>, parses: bool) -> TunnelView {
    TunnelView {
        method: head.method,
        uri: or_root(uri, parses),
        protocol: None,
        headers: passed(Passage::RequestIn, head.headers),
    }
}

/// What to do with a public request to a tunnel that was found.
pub open spec fn planned_at(
    state: StateView,
    tunnel: HandleView,
    head: RequestView,
) -> ProxyPlanView {
    match state.reached_at(tunnel) {
        Reached::Nobody => ProxyPlanView::Answer(bad_gateway()),
        Reached::Busy => ProxyPlanView::Wait { tunnel, request: head },
        Reached::Client(client) => if asks_for_websocket(head.method, head.headers) {
            ProxyPlanView::WebSocket { client, request: head }
        } else {
            let uri = target(tunnel.subdomain, state.domain, head.path_and_query);
            ProxyPlanView::Forward { client, head: tunneled(head, uri, uri_parses(uri)) }
        },
    }
}

/// What to do with a public request to a subdomain.
pub open spec fn planned(state: StateView, sub: Seq<char>, head: RequestView) -> ProxyPlanView {
    if state.taken(sub) {
        planned_at(state, state.handle(sub), head)
    } else {
        ProxyPlanView::Answer(bad_gateway())
    }
}

/// What to do with a public request for a WebSocket, once it is known whether its address
/// inside the tunnel, `uri`, is a URI.
pub open spec fn ws_planned(head: RequestView, uri: Seq<char>, parses: bool) -> WsPlanView {
    match first_value(head.headers, "sec-websocket-key"@) {
        None => WsPlanView::Answer(text_reply(400, "missing sec-websocket-key"@)),
        Some(key) => if !visible(key) {
            WsPlanView::Answer(text_reply(400, "bad sec-websocket-key"@))
        } else if !parses {
            WsPlanView::Answer(bad_gateway())
        } else {
            WsPlanView::Connect {
                head: TunnelView {
                    method: "CONNECT"@,
                    uri,
                    protocol: Some("websocket"@),
                    headers: passed(Passage::HandshakeIn, head.headers),
                },
                accept: accept_of(value_text(key)),
            }
        },
    }
}

/// What the public gets for a request that went through the tunnel.
pub open spec fn relayed(upstream: UpstreamView) -> RelayView {
    match upstream {
        UpstreamView::Failed => RelayView::Answer(bad_gateway()),
        UpstreamView::TimedOut => RelayView::Answer(gateway_timeout()),
        UpstreamView::Responded { status, headers } => RelayView::Response {
            status,
            headers: passed(Passage::ResponseOut, headers),
        },
    }
}

/// The first value under a name, as a list of headers.
pub open spec fn carried(headers: Map<Seq<char>, Seq<Seq<u8>>>, name: Seq<char>) -> Seq<
    (Seq<char>, Seq<u8>),
> {
    match first_value(headers, name) {
        Some(v) => seq![(name, v)],
        None => Seq::empty(),
    }
}

/// What the public gets for a request to go on as a WebSocket.
pub open spec fn switched(upstream: UpstreamView, accept: Seq<char>) -> SwitchView {
    match upstream {
        UpstreamView::Failed => SwitchView::Answer(bad_gateway()),
        UpstreamView::TimedOut => SwitchView::Answer(gateway_timeout()),
        UpstreamView::Responded { status, headers } => if status != 200 {
            SwitchView::Answer(bad_gateway())
        } else {
            SwitchView::Protocols {
                status: SWITCHING_PROTOCOLS,
                headers: seq![
                    ("upgrade"@, vstd::utf8::encode_utf8("websocket"@)),
                    ("connection"@, vstd::utf8::encode_utf8("upgrade"@)),
                    ("sec-websocket-accept"@, vstd::utf8::encode_utf8(accept)),
                ] + carried(headers, "sec-websocket-protocol"@) + carried(
                    headers,
                    "sec-websocket-extensions"@,
                ),
            }
        },
    }
}

/// The address that a request has inside the tunnel.
pub fn target_uri(sub: &str, domain: &str, path_and_query: &Option<String>) -> (r: String)
    ensures
        r@ == target(sub@, domain@, text_if(*path_and_query)),
{
    let mut uri = "https://".to_owned();
    uri.append(sub);
    uri.append(".");
    uri.append(domain);
    match path_and_query {
        Some(p) => uri.append(p.as_str()),
        None => uri.append("/"),
    }
    uri
}

/// A text if it is a URI, and the root otherwise.
pub fn uri_or_root(uri: String, parses: bool) -> (r: String)
    ensures
        r@ == or_root(uri@, parses),
{
    if parses {
        uri
    } else {
        "/".to_owned()
    }
}

/// The head of a public request as the tunnel carries it, once it is known whether its address
/// inside the tunnel is a URI.
pub fn plan_forward(head: RequestHead, uri: String, parses: bool) -> (r: TunnelHead)
    ensures
        r@ == tunneled(head@, uri@, parses),
{
    let mut headers = head.headers;
    pass_headers(Passage::RequestIn, &mut headers);
    TunnelHead { method: head.method, uri: uri_or_root(uri, parses), protocol: None, headers }
}

/// Decides what to do with a public request to a tunnel that was found, and that the request may
/// have waited for.
pub fn proxy_through(state: &AppState, tunnel: Handle, head: RequestHead) -> (r: ProxyPlan)
    ensures
        r@ == planned_at(state@, tunnel@, head@),
{
    let client: u64 = match state.reach(&tunnel) {
        Reached::Nobody => {
            return ProxyPlan::Answer(generic_502());
        },
        Reached::Busy => {
            return ProxyPlan::Wait { tunnel, request: head };
        },
        Reached::Client(serial) => serial,
    };
    if is_ws_upgrade(head.method.as_str(), &head.headers) {
        return ProxyPlan::WebSocket { client, request: head };
    }
    let uri = target_uri(tunnel.subdomain.as_str(), state.domain(), &head.path_and_query);
    let parses = is_uri(uri.as_str());
    ProxyPlan::Forward { client, head: plan_forward(head, uri, parses) }
}

/// Decides what to do with a public request to a subdomain.
pub fn proxy_request(state: &AppState, sub: &str, head: RequestHead) -> (r: ProxyPlan)
    ensures
        r@ == planned(state@, sub@, head@),
{
    match state.tunnel_at(sub) {
        Some(tunnel) => proxy_through(state, tunnel, head),
        None => ProxyPlan::Answer(generic_502()),
    }
}

/// Decides what to do with a public request for a WebSocket, once it is known whether its
/// address inside the tunnel is a URI.
pub fn plan_ws(head: RequestHead, uri: String, parses: bool) -> (r: WsPlan)
    ensures
        r@ == ws_planned(head@, uri@, parses),
{
    proof {
        reveal_strlit("sec-websocket-key");
        assert(ascii_lower("sec-websocket-key"@) =~= "sec-websocket-key"@);
    }
    let key = match get_value(&head.headers, "sec-websocket-key") {
        Some(v) => v,
        None => {
            return WsPlan::Answer(Reply::text(400, "missing sec-websocket-key"));
        },
    };
    let key = match text_of_value(&key) {
        Some(s) => s,
        None => {
            return WsPlan::Answer(Reply::text(400, "bad sec-websocket-key"));
        },
    };
    if !parses {
        return WsPlan::Answer(generic_502());
    }
    let accept = ws_accept(key.as_str());
    let mut headers = head.headers;
    pass_headers(Passage::HandshakeIn, &mut headers);
    let protocol = Some("websocket".to_owned());
    WsPlan::Connect {
        head: TunnelHead { method: "CONNECT".to_owned(), uri, protocol, headers },
        accept,
    }
}

/// Decides what to do with a public request for a WebSocket to a subdomain.
pub fn proxy_ws(state: &AppState, sub: &str, head: RequestHead) -> (r: WsPlan)
    ensures
        ({
            let uri = target(sub@, state@.domain, head@.path_and_query);
            r@ == ws_planned(head@, uri, uri_parses(uri))
        }),
{
    let uri = target_uri(sub, state.domain(), &head.path_and_query);
    let parses = is_uri(uri.as_str());
    plan_ws(head, uri, parses)
}

/// Decides what the public gets for a request that went through the tunnel.
pub fn proxy_response(upstream: Upstream) -> (r: Relay)
    ensures
        r@ == relayed(upstream@),
{
    match upstream {
        Upstream::Failed => Relay::Answer(generic_502()),
        Upstream::TimedOut => Relay::Answer(generic_504()),
        Upstream::Responded { status, mut headers } => {
            pass_headers(Passage::ResponseOut, &mut headers);
            Relay::Response { status, headers }
        },
    }
}

/// Adds the first value under a name to a list of headers.
pub(crate) fn carry(
    out: &mut Vec<(String, Vec<u8>)>,
    headers: &HeaderMap<HeaderValue>,
    name: &str,
)
    requires
        ascii_lower(name@) == name@,
        plain_name(name@),
    ensures
        lines(final(out)@) == lines(old(out)@) + carried(headers_of(*headers), name@),
{
    match get_value(headers, name) {
        Some(v) => {
            out.push((name.to_owned(), v));
        },
        None => {},
    }
    proof {
        assert(lines(out@) =~= lines(old(out)@) + carried(headers_of(*headers), name@));
    }
}

/// Decides what the public gets for a request to go on as a WebSocket.
pub fn ws_response(upstream: Upstream, accept: String) -> (r: Switch)
    ensures
        r@ == switched(upstream@, accept@),
{
    match upstream {
        Upstream::Failed => Switch::Answer(generic_502()),
        Upstream::TimedOut => Switch::Answer(generic_504()),
        Upstream::Responded { status, headers } => {
            if status != 200 {
                return Switch::Answer(generic_502());
            }
            let mut out: Vec<(String, Vec<u8>)> = Vec::new();
            out.push(("upgrade".to_owned(), vstd::slice::slice_to_vec("websocket".as_bytes())));
            out.push(("connection".to_owned(), vstd::slice::slice_to_vec("upgrade".as_bytes())));
            out.push(
                (
                    "sec-websocket-accept".to_owned(),
                    vstd::slice::slice_to_vec(accept.as_str().as_bytes()),
                ),
            );
            proof {
                reveal_strlit("sec-websocket-protocol");
                reveal_strlit("sec-websocket-extensions");
                assert(ascii_lower("sec-websocket-protocol"@) =~= "sec-websocket-protocol"@);
                assert(ascii_lower("sec-websocket-extensions"@) =~= "sec-websocket-extensions"@);
                assert(lines(out@) =~= seq![
                    ("upgrade"@, vstd::utf8::encode_utf8("websocket"@)),
                    ("connection"@, vstd::utf8::encode_utf8("upgrade"@)),
                    ("sec-websocket-accept"@, vstd::utf8::encode_utf8(accept@)),
                ]);
            }
            carry(&mut out, &headers, "sec-websocket-protocol");
            carry(&mut out, &headers, "sec-websocket-extensions");
            Switch::Protocols { status: SWITCHING_PROTOCOLS, headers: out }
        },
    }
}

/// A public request goes to a client exactly if the client is the one of the tunnel that the
/// request is for.
pub proof fn law_requests_reach_their_client_only(
    state: StateView,
    sub: Seq<char>,
    head: RequestView,
    client: u64,
)
    ensures
        planned(state, sub, head).client() == Some(client) <==> state.reached(sub)
            == Reached::Client(client),
{
}

/// A request that waits keeps to the tunnel that it found, though the tunnel is deleted
/// meanwhile: it goes to the client that came in, and is a bad gateway if that one failed.
pub proof fn law_waiting_request_keeps_its_tunnel(
    state: StateView,
    sub: Seq<char>,
    head: RequestView,
)
    requires
        state.taken(sub),
        state.slot(state.handle(sub)) is Held,
        state.by_id.contains_key(state.handle(sub).tunnel_id@),
        state.by_id[state.handle(sub).tunnel_id@] == sub,
    ensures
        ({
            let h = state.handle(sub);
            let deleted = state.deletion(h.tunnel_id@).0;
            let there = deleted.settled(h, true);
            let failed = deleted.settled(h, false);
            &&& planned(state, sub, head) == (ProxyPlanView::Wait { tunnel: h, request: head })
            &&& planned_at(there, h, head).client() == Some(h.serial)
            &&& planned_at(failed, h, head) == ProxyPlanView::Answer(bad_gateway())
        }),
{
}

/// A tunnel without a client answers every request in one way.
pub proof fn law_vacant_tunnel_is_a_bad_gateway(
    state: StateView,
    sub: Seq<char>,
    head: RequestView,
)
    requires
        state.reached(sub) == Reached::Nobody,
    ensures
        planned(state, sub, head) == ProxyPlanView::Answer(bad_gateway()),
{
}

/// A handshake is answered with the accept of its own key.
pub proof fn law_handshake_answers_its_key(
    head: RequestView,
    uri: Seq<char>,
    parses: bool,
    accept: Seq<char>,
)
    requires
        ws_planned(head, uri, parses) matches WsPlanView::Connect { accept: a, .. } && a == accept,
    ensures
        first_text(head.headers, "sec-websocket-key"@) matches Some(key) && accept == accept_of(
            key,
        ),
{
}

/// The address that a request has inside the tunnel, character by character: `https://`, the
/// subdomain, a dot, the apex, and behind them the whole path and query, or the root where the
/// request names none.
pub proof fn law_address_keeps_path_and_query(
    sub: Seq<char>,
    domain: Seq<char>,
    path_and_query: Option<Seq<char>>,
)
    ensures
        ({
            let address = target(sub, domain, path_and_query);
            let front = 8 + sub.len() + 1 + domain.len();
            &&& address.take(8) == "https://"@
            &&& address.subrange(8, 8 + sub.len() as int) == sub
            &&& address[8 + sub.len() as int] == '.'
            &&& address.subrange(9 + sub.len() as int, front as int) == domain
            &&& address.skip(front as int) == match path_and_query {
                Some(p) => p,
                None => "/"@,
            }
        }),
{
    reveal_strlit("https://");
    reveal_strlit(".");
    reveal_strlit("/");
    let address = target(sub, domain, path_and_query);
    let front = 8 + sub.len() + 1 + domain.len();
    assert(address.take(8) =~= "https://"@);
    assert(address.subrange(8, 8 + sub.len() as int) =~= sub);
    assert(address.subrange(9 + sub.len() as int, front as int) =~= domain);
    assert(address.skip(front as int) =~= match path_and_query {
        Some(p) => p,
        None => "/"@,
    });
}

/// What happens to a public request depends on its tunnel alone, and on whether it asks for a
/// WebSocket. It is a bad gateway exactly if there is no tunnel or nobody in it, and waits exactly
/// while a client is being let in; it goes to the client as it is otherwise.
pub proof fn law_request_is_planned(state: StateView, sub: Seq<char>, head: RequestView)
    ensures
        ({
            let plan = planned(state, sub, head);
            let asks = asks_for_websocket(head.method, head.headers);
            match state.reached(sub) {
                Reached::Nobody => plan == ProxyPlanView::Answer(bad_gateway()),
                Reached::Busy => plan == (ProxyPlanView::Wait {
                    tunnel: state.handle(sub),
                    request: head,
                }),
                Reached::Client(client) => {
                    &&& asks ==> plan == (ProxyPlanView::WebSocket { client, request: head })
                    &&& !asks ==> plan is Forward && plan->Forward_client == client
                },
            }
        }),
{
}

/// The same holds of a request that has waited, for the tunnel that it waited for.
pub proof fn law_waiting_request_is_planned(
    state: StateView,
    tunnel: HandleView,
    head: RequestView,
)
    ensures
        ({
            let plan = planned_at(state, tunnel, head);
            let asks = asks_for_websocket(head.method, head.headers);
            match state.slot(tunnel) {
                Slot::Vacant => plan == ProxyPlanView::Answer(bad_gateway()),
                Slot::Held => plan == (ProxyPlanView::Wait { tunnel, request: head }),
                Slot::Attached => {
                    &&& asks ==> plan == (ProxyPlanView::WebSocket {
                        client: tunnel.serial,
                        request: head,
                    })
                    &&& !asks ==> {
                        let path = match head.path_and_query {
                            Some(p) => p,
                            None => "/"@,
                        };
                        let address = "https://"@ + tunnel.subdomain + "."@ + state.domain + path;
                        plan == (ProxyPlanView::Forward {
                            client: tunnel.serial,
                            head: TunnelView {
                                method: head.method,
                                uri: if uri_parses(address) {
                                    address
                                } else {
                                    "/"@
                                },
                                protocol: None,
                                headers: passed(Passage::RequestIn, head.headers),
                            },
                        })
                    }
                },
            }
        }),
{
}

/// A request that is forwarded keeps its method, its path and query to the last character, and
/// every header but for those that stop at the tunnel. Its address is the tunnel's host and that
/// path and query, or the root if that is no URI.
pub proof fn law_forwarded_request_is_the_public_one(
    state: StateView,
    sub: Seq<char>,
    head: RequestView,
    forwarded: TunnelView,
)
    requires
        planned(state, sub, head) matches ProxyPlanView::Forward { head: t, .. } && t == forwarded,
    ensures
        ({
            let path = match head.path_and_query {
                Some(p) => p,
                None => "/"@,
            };
            let address = "https://"@ + sub + "."@ + state.domain + path;
            let front = 8 + sub.len() + 1 + state.domain.len();
            &&& forwarded.method == head.method
            &&& forwarded.protocol is None
            &&& forwarded.headers == passed(Passage::RequestIn, head.headers)
            &&& uri_parses(address) ==> forwarded.uri == address && forwarded.uri.skip(front as int)
                == path
            &&& !uri_parses(address) ==> forwarded.uri == "/"@
        }),
{
    law_address_keeps_path_and_query(sub, state.domain, head.path_and_query);
}

/// A root stands in exactly where a text is no URI.
pub proof fn law_root_stands_in(uri: Seq<char>)
    ensures
        or_root(uri, true) == uri,
        or_root(uri, false) == "/"@,
{
}

/// A public WebSocket is opened as a `CONNECT` for `websocket`, to the tunnel's host and the same
/// path and query to the last character, with every header but for those of the handshake, and
/// its key is answered. It is refused for a missing key, else for one that is no text, else for an
/// address that is no URI, and for nothing else.
pub proof fn law_websocket_keeps_path_and_query(
    head: RequestView,
    sub: Seq<char>,
    domain: Seq<char>,
    parses: bool,
)
    ensures
        ({
            let path = match head.path_and_query {
                Some(p) => p,
                None => "/"@,
            };
            let address = "https://"@ + sub + "."@ + domain + path;
            let plan = ws_planned(head, target(sub, domain, head.path_and_query), parses);
            let key = first_value(head.headers, "sec-websocket-key"@);
            &&& plan is Connect <==> key is Some && visible(key->0) && parses
            &&& plan is Connect ==> {
                &&& plan->Connect_head.method == "CONNECT"@
                &&& plan->Connect_head.uri == address
                &&& plan->Connect_head.uri.skip(8 + sub.len() as int + 1 + domain.len()) == path
                &&& plan->Connect_head.protocol == Some("websocket"@)
                &&& plan->Connect_head.headers == passed(Passage::HandshakeIn, head.headers)
                &&& plan->Connect_accept == accept_of(value_text(key->0))
            }
            &&& key is None ==> plan == WsPlanView::Answer(
                text_reply(400, "missing sec-websocket-key"@),
            )
            &&& key is Some && !visible(key->0) ==> plan == WsPlanView::Answer(
                text_reply(400, "bad sec-websocket-key"@),
            )
            &&& key is Some && visible(key->0) && !parses ==> plan == WsPlanView::Answer(
                bad_gateway(),
            )
        }),
{
    law_address_keeps_path_and_query(sub, domain, head.path_and_query);
}

/// The plan of a WebSocket uses the address that it is given as it is.
pub proof fn law_websocket_keeps_its_address(head: RequestView, uri: Seq<char>, parses: bool)
    ensures
        ws_planned(head, uri, parses) matches WsPlanView::Connect { head: t, .. } ==> t.uri == uri,
{
}

/// A client's answer reaches the public with its status, and with every header but for those that
/// stop at the tunnel; a failure is 502 and silence is 504.
pub proof fn law_response_is_relayed(
    status: u16,
    headers: Map<Seq<char>, Seq<Seq<u8>>>,
)
    ensures
        relayed(UpstreamView::Responded { status, headers }) == (RelayView::Response {
            status,
            headers: passed(Passage::ResponseOut, headers),
        }),
        relayed(UpstreamView::Failed) == RelayView::Answer(bad_gateway()),
        relayed(UpstreamView::TimedOut) == RelayView::Answer(gateway_timeout()),
{
}

/// A header that is carried over has the first of its values; one that is not there is left out.
pub proof fn law_first_value_is_carried(
    headers: Map<Seq<char>, Seq<Seq<u8>>>,
    name: Seq<char>,
    v: Seq<(String, Vec<u8>)>,
    i: int,
)
    ensures
        headers.contains_key(name) && headers[name].len() > 0 ==> carried(headers, name)
            == seq![(name, headers[name][0])],
        !headers.contains_key(name) ==> carried(headers, name).len() == 0,
        lines(v).len() == v.len(),
        0 <= i < v.len() ==> lines(v)[i] == (v[i].0@, v[i].1@),
{
}

/// Protocols are switched exactly if the client opened the stream with 200. The public then gets
/// 101, the accept of its key as it is, and the service's choice of protocol and extensions.
pub proof fn law_protocols_are_switched(
    status: u16,
    headers: Map<Seq<char>, Seq<Seq<u8>>>,
    accept: Seq<char>,
)
    ensures
        status == 200 ==> switched(UpstreamView::Responded { status, headers }, accept) == (
        SwitchView::Protocols {
            status: 101,
            headers: seq![
                ("upgrade"@, vstd::utf8::encode_utf8("websocket"@)),
                ("connection"@, vstd::utf8::encode_utf8("upgrade"@)),
                ("sec-websocket-accept"@, vstd::utf8::encode_utf8(accept)),
            ] + carried(headers, "sec-websocket-protocol"@) + carried(
                headers,
                "sec-websocket-extensions"@,
            ),
        }),
        status != 200 ==> switched(UpstreamView::Responded { status, headers }, accept)
            == SwitchView::Answer(bad_gateway()),
        switched(UpstreamView::Failed, accept) == SwitchView::Answer(bad_gateway()),
        switched(UpstreamView::TimedOut, accept) == SwitchView::Answer(gateway_timeout()),
{
}

/// The heads of requests, as contracts speak of them, are the heads themselves.
pub proof fn law_heads_are_seen_whole(r: RequestHead, t: TunnelHead)
    ensures
        r@.method == r.method@,
        r@.path_and_query is Some <==> r.path_and_query is Some,
        r.path_and_query is Some ==> r@.path_and_query == Some(r.path_and_query->0@),
        r@.headers == headers_of(r.headers),
        t@.method == t.method@,
        t@.uri == t.uri@,
        t@.protocol is Some <==> t.protocol is Some,
        t.protocol is Some ==> t@.protocol == Some(t.protocol->0@),
        t@.headers == headers_of(t.headers),
{
}

/// Plans and answers are seen by contracts as they are.
pub proof fn law_plans_are_seen_whole(
    p: ProxyPlan,
    w: WsPlan,
    u: Upstream,
    r: Relay,
    s: Switch,
)
    ensures
        match p {
            ProxyPlan::Answer(a) => p@ == ProxyPlanView::Answer(a@),
            ProxyPlan::Wait { tunnel, request } => p@ == (ProxyPlanView::Wait {
                tunnel: tunnel@,
                request: request@,
            }),
            ProxyPlan::WebSocket { client, request } => p@ == (ProxyPlanView::WebSocket {
                client,
                request: request@,
            }),
            ProxyPlan::Forward { client, head } => p@ == (ProxyPlanView::Forward {
                client,
                head: head@,
            }),
        },
        match w {
            WsPlan::Answer(a) => w@ == WsPlanView::Answer(a@),
            WsPlan::Connect { head, accept } => w@ == (WsPlanView::Connect {
                head: head@,
                accept: accept@,
            }),
        },
        match u {
            Upstream::Failed => u@ is Failed,
            Upstream::TimedOut => u@ is TimedOut,
            Upstream::Responded { status, headers } => u@ == (UpstreamView::Responded {
                status,
                headers: headers_of(headers),
            }),
        },
        match r {
            Relay::Answer(a) => r@ == RelayView::Answer(a@),
            Relay::Response { status, headers } => r@ == (RelayView::Response {
                status,
                headers: headers_of(headers),
            }),
        },
        match s {
            Switch::Answer(a) => s@ == SwitchView::Answer(a@),
            Switch::Protocols { status, headers } => s@ == (SwitchView::Protocols {
                status,
                headers: lines(headers@),
            }),
        },
{
}

} // verus!
