//! The server's state: which tunnels exist, by subdomain and by id, and what requests,
//! clients and time do to them.
//!
//! A client or a request that has to wait for a tunnel's place keeps hold of the tunnel that it
//! found, even if the tunnel is deleted while it waits.

use dashmap::DashMap;
use http::{HeaderMap, HeaderValue};
use std::collections::HashMap;
use vstd::prelude::*;
use vstd::utf8::{encode_utf8, is_ascii_chars};

use crate::auth::{authorized, check_auth, check_secret, constant_time_eq, SecretTooShort, MIN_SECRET_CHARS};
use crate::headers::{first_text, get_text, lemma_value_text_is_ascii};
use crate::host::{host_route, route_host, HostRoute, HostRouteView};
use crate::names::{generate_subdomain, is_subdomain, texts};
use crate::outside::lowercase::{lowercase_of, to_lowercase};
use crate::outside::messages::headers_of;
use crate::outside::random::{new_uuid, random_uuid};
use crate::outside::tables::{
    ids_get, ids_insert, ids_new, ids_of, ids_remove, tunnels_entries, tunnels_get, tunnels_insert,
    tunnels_len, tunnels_new, tunnels_of, tunnels_remove,
};
use crate::proto::{Prelude, PreludeView, TunnelId};
use crate::reply::{bare_reply, not_found, text_reply, unauth_as_404, Reply, ReplyView};
use crate::text::{
    ascii_lower, before_first, chars_of, find_from, find_text, first_index, text_of,
};

verus! {

/// How many tunnels the server keeps at most.
pub const MAX_TUNNELS: usize = 1024;

/// How many subdomains are drawn for a tunnel, to find one that is free.
pub const MAX_DRAWS: usize = 9;

/// How long a tunnel waits for its client, in nanoseconds: a minute.
pub const ATTACH_DEADLINE: u64 = 60_000_000_000;

/// How often tunnels are reaped, in nanoseconds: every quarter of a minute.
pub const REAPER_INTERVAL: u64 = 15_000_000_000;

/// How long a client may take for its TLS handshake, in nanoseconds: ten seconds.
pub const TLS_ACCEPT_TIMEOUT: u64 = 10_000_000_000;

/// How long a client may take for its prelude, in nanoseconds: ten seconds.
pub const PRELUDE_TIMEOUT: u64 = 10_000_000_000;

/// How long a client may take for the head of a response, in nanoseconds: two minutes.
pub const HEAD_TIMEOUT: u64 = 120_000_000_000;

/// How many bytes the body of a request to the control plane may have.
pub const API_BODY_LIMIT: usize = 8192;

/// The status of the answer to a request that made a tunnel.
pub const CREATED: u16 = 201;

/// A tunnel's place for its client.
#[derive(Debug, Copy, Clone, PartialEq, Eq, Structural)]
pub enum Slot {
    /// No client is there.
    Vacant,
    /// A client is being let in.
    Held,
    /// A client is there.
    Attached,
}

/// What the server knows of a tunnel.
#[derive(Debug, Copy, Clone)]
pub struct TunnelHandle {
    pub tunnel_id: TunnelId,
    /// Which of the tunnels that were ever made this is.
    pub serial: u64,
    pub sender: Slot,
    /// When the tunnel was made, in nanoseconds of a clock that never goes back.
    pub created_at: u64,
}

/// A tunnel that was found, for one who may have to wait for its place.
pub struct Handle {
    pub subdomain: String,
    pub tunnel_id: TunnelId,
    pub serial: u64,
}

/// [`Handle`] over plain values.
#[verifier::ext_equal]
pub struct HandleView {
    pub subdomain: Seq<char>,
    pub tunnel_id: TunnelId,
    pub serial: u64,
}

impl View for Handle {
    type V = HandleView;

    open spec fn view(&self) -> HandleView {
        HandleView {
            subdomain: self.subdomain@,
            tunnel_id: self.tunnel_id,
            serial: self.serial,
        }
    }
}

/// What a server is told at its start.
pub struct Args {
    /// The bearer token.
    pub secret: String,
    /// The apex under which the tunnels are found.
    pub domain: String,
    /// The public address of the server.
    pub public_base: String,
    /// The public address of its data plane.
    pub data_public: String,
}

/// The state of the server.
pub struct AppState {
    secret: String,
    domain: String,
    public_base: String,
    data_public: String,
    tunnels: DashMap<String, TunnelHandle>,
    by_id: DashMap<TunnelId, String>,
    /// The places of tunnels that are in the tables no more, but for vacant ones.
    revoked: HashMap<u64, Slot>,
    /// How many tunnels were made.
    made: u64,
}

/// [`AppState`] over plain values.
#[verifier::ext_equal]
pub struct StateView {
    pub secret: Seq<char>,
    pub domain: Seq<char>,
    pub public_base: Seq<char>,
    pub data_public: Seq<char>,
    pub tunnels: Map<Seq<char>, TunnelHandle>,
    pub by_id: Map<Seq<u8>, Seq<char>>,
    pub revoked: Map<u64, Slot>,
    pub made: u64,
}

impl View for AppState {
    type V = StateView;

    closed spec fn view(&self) -> StateView {
        StateView {
            secret: self.secret@,
            domain: self.domain@,
            public_base: self.public_base@,
            data_public: self.data_public@,
            tunnels: tunnels_of(self.tunnels),
            by_id: ids_of(self.by_id),
            revoked: self.revoked@,
            made: self.made,
        }
    }
}

/// What a client is told of the tunnel it asked for.
pub struct CreateResp {
    pub tunnel_id: TunnelId,
    pub subdomain: String,
    pub public_url: String,
    pub connect_addr: String,
}

/// [`CreateResp`] over plain values.
#[verifier::ext_equal]
pub struct CreateRespView {
    pub tunnel_id: TunnelId,
    pub subdomain: Seq<char>,
    pub public_url: Seq<char>,
    pub connect_addr: Seq<char>,
}

impl View for CreateResp {
    type V = CreateRespView;

    open spec fn view(&self) -> CreateRespView {
        CreateRespView {
            tunnel_id: self.tunnel_id,
            subdomain: self.subdomain@,
            public_url: self.public_url@,
            connect_addr: self.connect_addr@,
        }
    }
}

/// One tunnel of a listing.
pub struct ListItem {
    pub tunnel_id: TunnelId,
    pub subdomain: String,
    pub public_url: String,
}

/// What became of the request to delete a tunnel.
pub struct Deletion {
    pub reply: Reply,
    /// The tunnel that went, whose client is to be let go when its place is free.
    pub released: Option<Handle>,
}

/// What the server knows of the tunnel that a prelude names.
pub enum Lookup {
    /// The token is not the secret.
    BadToken,
    /// There is no tunnel with that id.
    NoSuchTunnel,
    /// This is the tunnel.
    Found(Handle),
}

/// [`Lookup`] over plain values.
pub enum LookupView {
    BadToken,
    NoSuchTunnel,
    Found(HandleView),
}

impl View for Lookup {
    type V = LookupView;

    open spec fn view(&self) -> LookupView {
        match *self {
            Lookup::BadToken => LookupView::BadToken,
            Lookup::NoSuchTunnel => LookupView::NoSuchTunnel,
            Lookup::Found(h) => LookupView::Found(h@),
        }
    }
}

/// What a client that has found its tunnel is answered.
#[derive(Debug, Copy, Clone, PartialEq, Eq, Structural)]
pub enum Admission {
    /// The tunnel has a client already.
    AlreadyAttached,
    /// Another client is being let in: ask again when that is settled.
    Busy,
    /// The client may come in.
    Admitted,
}

/// Whom a request reaches through a tunnel.
#[derive(Debug, Copy, Clone, PartialEq, Eq, Structural)]
pub enum Reached {
    /// There is no client in it.
    Nobody,
    /// A client is being let in: ask again when that is settled.
    Busy,
    /// The client of the tunnel with this serial number.
    Client(u64),
}

/// The answer to a request to make a tunnel, over plain values.
pub open spec fn answer_of(r: Result<CreateResp, Reply>) -> Result<CreateRespView, ReplyView> {
    match r {
        Ok(resp) => Ok(resp@),
        Err(reply) => Err(reply@),
    }
}

/// What is drawn for a request to make a tunnel: as many subdomains of the list's words as may
/// be looked at.
pub open spec fn drawn(words: Seq<Seq<char>>, candidates: Seq<Seq<char>>) -> bool {
    &&& candidates.len() == MAX_DRAWS
    &&& forall|i: int| 0 <= i < candidates.len() ==> is_subdomain(words, #[trigger] candidates[i])
}

/// A tunnel, if there is one.
pub open spec fn handle_if(h: Option<Handle>) -> Option<HandleView> {
    match h {
        Some(h) => Some(h@),
        None => None,
    }
}

/// The number after `n`; zero follows the last one.
pub open spec fn following(n: u64) -> u64 {
    if n == u64::MAX {
        0
    } else {
        (n + 1) as u64
    }
}

/// Whether a tunnel has waited for its client for too long.
pub open spec fn stale(handle: TunnelHandle, now: u64) -> bool {
    handle.sender == Slot::Vacant && now - handle.created_at > ATTACH_DEADLINE
}

impl StateView {
    /// The scheme of the server's public address.
    pub open spec fn scheme(self) -> Seq<char> {
        match find_from(self.public_base, "://"@, 0) {
            Some(i) => self.public_base.take(i),
            None => "https"@,
        }
    }

    /// The public address of a tunnel.
    pub open spec fn public_url(self, sub: Seq<char>) -> Seq<char> {
        self.scheme() + "://"@ + sub + "."@ + self.domain
    }

    /// Whether a subdomain is in use.
    pub open spec fn taken(self, sub: Seq<char>) -> bool {
        self.tunnels.contains_key(sub)
    }

    /// Whether no further tunnel fits.
    pub open spec fn full(self) -> bool {
        self.tunnels.dom().len() >= MAX_TUNNELS
    }

    /// The state with one tunnel more.
    pub open spec fn with_tunnel(self, sub: Seq<char>, id: TunnelId, now: u64) -> StateView {
        StateView {
            tunnels: self.tunnels.insert(
                sub,
                TunnelHandle {
                    tunnel_id: id,
                    serial: self.made,
                    sender: Slot::Vacant,
                    created_at: now,
                },
            ),
            by_id: self.by_id.insert(id@, sub),
            made: following(self.made),
            ..self
        }
    }

    /// The tunnel under a subdomain.
    pub open spec fn handle(self, sub: Seq<char>) -> HandleView {
        HandleView {
            subdomain: sub,
            tunnel_id: self.tunnels[sub].tunnel_id,
            serial: self.tunnels[sub].serial,
        }
    }

    /// Whether a tunnel is still in the tables.
    pub open spec fn stands(self, h: HandleView) -> bool {
        &&& self.tunnels.contains_key(h.subdomain)
        &&& self.tunnels[h.subdomain].serial == h.serial
    }

    /// A tunnel's place, whether or not the tunnel is still in the tables.
    pub open spec fn slot(self, h: HandleView) -> Slot {
        if self.stands(h) {
            self.tunnels[h.subdomain].sender
        } else if self.revoked.contains_key(h.serial) {
            self.revoked[h.serial]
        } else {
            Slot::Vacant
        }
    }

    /// The state with a tunnel's place changed.
    pub open spec fn with_slot(self, h: HandleView, slot: Slot) -> StateView {
        if self.stands(h) {
            StateView {
                tunnels: self.tunnels.insert(
                    h.subdomain,
                    TunnelHandle { sender: slot, ..self.tunnels[h.subdomain] },
                ),
                ..self
            }
        } else {
            self.with_revoked(h.serial, slot)
        }
    }

    /// The state with the place of a tunnel that is in the tables no more.
    pub open spec fn with_revoked(self, serial: u64, slot: Slot) -> StateView {
        StateView {
            revoked: if slot == Slot::Vacant {
                self.revoked.remove(serial)
            } else {
                self.revoked.insert(serial, slot)
            },
            ..self
        }
    }

    /// The state without the tunnel under a subdomain, whose place is still kept.
    pub open spec fn evicted(self, sub: Seq<char>) -> StateView {
        if self.tunnels.contains_key(sub) {
            let handle = self.tunnels[sub];
            StateView { tunnels: self.tunnels.remove(sub), ..self }.with_revoked(
                handle.serial,
                handle.sender,
            )
        } else {
            self
        }
    }

    /// The state without an id.
    pub open spec fn without_id(self, id: Seq<u8>) -> StateView {
        StateView { by_id: self.by_id.remove(id), ..self }
    }

    /// What making a tunnel does and answers.
    pub open spec fn creation(self, sub: Seq<char>, id: TunnelId, now: u64) -> (
        StateView,
        Result<CreateRespView, ReplyView>,
    ) {
        if self.taken(sub) {
            (self, Err(text_reply(409, "could not allocate subdomain"@)))
        } else if self.full() {
            (self, Err(text_reply(503, "too many tunnels"@)))
        } else {
            (
                self.with_tunnel(sub, id, now),
                Ok(
                    CreateRespView {
                        tunnel_id: id,
                        subdomain: sub,
                        public_url: self.public_url(sub),
                        connect_addr: self.data_public,
                    },
                ),
            )
        }
    }

    /// Where the first candidate at or after `i` that is free stands, if there is one among those
    /// that are looked at.
    pub open spec fn first_free(self, candidates: Seq<Seq<char>>, i: int) -> Option<int>
        decreases candidates.len() - i,
    {
        if i >= candidates.len() || i >= MAX_DRAWS {
            None
        } else if !self.taken(candidates[i]) {
            Some(i)
        } else {
            self.first_free(candidates, i + 1)
        }
    }

    /// What making a tunnel with the first free one of some candidates does and answers.
    pub open spec fn creation_from(
        self,
        candidates: Seq<Seq<char>>,
        id: TunnelId,
        now: u64,
    ) -> (StateView, Result<CreateRespView, ReplyView>) {
        match self.first_free(candidates, 0) {
            Some(i) => self.creation(candidates[i], id, now),
            None => (self, Err(text_reply(409, "could not allocate subdomain"@))),
        }
    }

    /// What a request to make a tunnel does and is answered, when these candidates and this id
    /// are drawn for it.
    pub open spec fn creation_asked(
        self,
        headers: Map<Seq<char>, Seq<Seq<u8>>>,
        candidates: Seq<Seq<char>>,
        id: TunnelId,
        now: u64,
    ) -> (StateView, Result<CreateRespView, ReplyView>) {
        if authorized(headers, self.secret) {
            self.creation_from(candidates, id, now)
        } else {
            (self, Err(not_found()))
        }
    }

    /// What deleting a tunnel does and answers.
    pub open spec fn deletion(self, id: Seq<u8>) -> (StateView, ReplyView) {
        if self.by_id.contains_key(id) {
            (self.evicted(self.by_id[id]).without_id(id), bare_reply(204))
        } else {
            (self, bare_reply(404))
        }
    }

    /// The tunnel that an id leads to.
    pub open spec fn found(self, id: Seq<u8>) -> Option<Seq<char>> {
        if self.by_id.contains_key(id) && self.tunnels.contains_key(self.by_id[id]) {
            Some(self.by_id[id])
        } else {
            None
        }
    }

    /// Whether an id is that of a tunnel that has waited for too long.
    pub open spec fn stale_id(self, id: Seq<u8>, now: u64) -> bool {
        exists|sub: Seq<char>| #[trigger]
            self.tunnels.contains_key(sub) && stale(self.tunnels[sub], now)
                && self.tunnels[sub].tunnel_id@ == id
    }

    /// The state without the tunnels that have waited for too long.
    pub open spec fn reaped(self, now: u64) -> StateView {
        StateView {
            tunnels: self.tunnels.restrict(
                Set::new(|sub: Seq<char>| !stale(self.tunnels[sub], now)),
            ),
            by_id: self.by_id.restrict(Set::new(|id: Seq<u8>| !self.stale_id(id, now))),
            ..self
        }
    }

    /// What the server knows of the tunnel that a prelude names.
    pub open spec fn lookup(self, prelude: PreludeView) -> LookupView {
        if prelude.token != encode_utf8(self.secret) {
            LookupView::BadToken
        } else {
            match self.found(prelude.tunnel_id) {
                None => LookupView::NoSuchTunnel,
                Some(sub) => LookupView::Found(self.handle(sub)),
            }
        }
    }

    /// What a client that comes to a tunnel does to the state, and is answered.
    pub open spec fn admission(self, h: HandleView) -> (StateView, Admission) {
        match self.slot(h) {
            Slot::Attached => (self, Admission::AlreadyAttached),
            Slot::Held => (self, Admission::Busy),
            Slot::Vacant => (self.with_slot(h, Slot::Held), Admission::Admitted),
        }
    }

    /// The state after a client that was being let in is there, or has failed.
    pub open spec fn settled(self, h: HandleView, attached: bool) -> StateView {
        if self.slot(h) != Slot::Held {
            self
        } else if attached {
            self.with_slot(h, Slot::Attached)
        } else {
            self.with_slot(h, Slot::Vacant)
        }
    }

    /// The state after a tunnel's client has left: its place is free, and its own record is
    /// dropped.
    pub open spec fn left(self, h: HandleView) -> StateView {
        let vacated = self.with_slot(h, Slot::Vacant);
        let own = vacated.tunnels.contains_key(h.subdomain)
            && vacated.tunnels[h.subdomain].tunnel_id@ == h.tunnel_id@;
        if own {
            vacated.evicted(h.subdomain).without_id(h.tunnel_id@)
        } else {
            vacated.without_id(h.tunnel_id@)
        }
    }

    /// What a client does that leaves its tunnel, and whether it could leave yet: while another is
    /// being let in, it has to wait.
    pub open spec fn departure(self, h: HandleView) -> (StateView, bool) {
        if self.slot(h) == Slot::Held {
            (self, false)
        } else {
            (self.left(h), true)
        }
    }

    /// What letting a tunnel's client go does, and whether that could be done yet.
    pub open spec fn release(self, h: HandleView) -> (StateView, bool) {
        if self.slot(h) == Slot::Held {
            (self, false)
        } else {
            (self.with_slot(h, Slot::Vacant), true)
        }
    }

    /// Whom a request reaches through a tunnel that was found.
    pub open spec fn reached_at(self, h: HandleView) -> Reached {
        match self.slot(h) {
            Slot::Vacant => Reached::Nobody,
            Slot::Held => Reached::Busy,
            Slot::Attached => Reached::Client(h.serial),
        }
    }

    /// Whom a request to a subdomain reaches.
    pub open spec fn reached(self, sub: Seq<char>) -> Reached {
        if self.tunnels.contains_key(sub) {
            self.reached_at(self.handle(sub))
        } else {
            Reached::Nobody
        }
    }

    /// The host that a request is addressed to, without its port.
    pub open spec fn host_asked(headers: Map<Seq<char>, Seq<Seq<u8>>>) -> Seq<char> {
        match first_text(headers, "host"@) {
            Some(host) => before_first(host, ':'),
            None => Seq::empty(),
        }
    }

    /// Where a request with these headers goes.
    pub open spec fn route(self, headers: Map<Seq<char>, Seq<Seq<u8>>>) -> HostRouteView {
        host_route(lowercase_of(Self::host_asked(headers)), lowercase_of(self.domain))
    }

    /// Where a request with these headers goes when the apex is plain ASCII.
    pub open spec fn ascii_route(self, headers: Map<Seq<char>, Seq<Seq<u8>>>) -> HostRouteView {
        host_route(ascii_lower(Self::host_asked(headers)), ascii_lower(self.domain))
    }
}

/// A server without tunnels. A secret that is too short is refused.
pub fn run(args: Args) -> (r: Result<AppState, SecretTooShort>)
    ensures
        r is Ok <==> args.secret@.len() >= MIN_SECRET_CHARS,
        r matches Ok(state) ==> state@ == (StateView {
            secret: args.secret@,
            domain: args.domain@,
            public_base: args.public_base@,
            data_public: args.data_public@,
            tunnels: Map::empty(),
            by_id: Map::empty(),
            revoked: Map::empty(),
            made: 0,
        }),
{
    match check_secret(args.secret.as_str()) {
        Err(e) => Err(e),
        Ok(_) => Ok(
            AppState {
                secret: args.secret,
                domain: args.domain,
                public_base: args.public_base,
                data_public: args.data_public,
                tunnels: tunnels_new(),
                by_id: ids_new(),
                revoked: HashMap::new(),
                made: 0,
            },
        ),
    }
}

/// Draws the subdomains that are looked at for a tunnel.
fn draw_candidates(words: &Vec<String>) -> (r: Vec<String>)
    requires
        words@.len() > 0,
    ensures
        drawn(texts(words@), texts(r@)),
{
    let mut candidates: Vec<String> = Vec::new();
    let mut i: usize = 0;
    while i < MAX_DRAWS
        invariant
            words@.len() > 0,
            i <= MAX_DRAWS,
            candidates@.len() == i,
            forall|j: int| 0 <= j < i ==> is_subdomain(texts(words@), #[trigger] candidates@[j]@),
        decreases MAX_DRAWS - i,
    {
        candidates.push(generate_subdomain(words));
        i += 1;
    }
    proof {
        assert forall|j: int| 0 <= j < texts(candidates@).len() implies is_subdomain(
            texts(words@),
            #[trigger] texts(candidates@)[j],
        ) by {
            assert(texts(candidates@)[j] == candidates@[j]@);
        }
    }
    candidates
}

impl AppState {
    /// The scheme of the server's public address.
    fn scheme(&self) -> (r: String)
        ensures
            r@ == self@.scheme(),
    {
        let base = chars_of(self.public_base.as_str());
        let mark = chars_of("://");
        match find_text(&base, &mark) {
            Some(i) => {
                let s = vstd::slice::slice_subrange(&base, 0, i);
                proof {
                    assert(s@ =~= self.public_base@.take(i as int));
                }
                text_of(s)
            },
            None => "https".to_owned(),
        }
    }

    /// The public address of a tunnel.
    pub fn public_url(&self, sub: &str) -> (r: String)
        ensures
            r@ == self@.public_url(sub@),
    {
        let mut url = self.scheme();
        url.append("://");
        url.append(sub);
        url.append(".");
        url.append(self.domain.as_str());
        url
    }

    /// Makes a tunnel with this subdomain and id, unless the subdomain is taken or there are
    /// too many tunnels.
    pub fn create_with(&mut self, subdomain: String, tunnel_id: TunnelId, now: u64) -> (r: Result<
        CreateResp,
        Reply,
    >)
        ensures
            (final(self)@, answer_of(r)) == old(self)@.creation(subdomain@, tunnel_id, now),
    {
        if tunnels_get(&self.tunnels, subdomain.as_str()).is_some() {
            return Err(Reply::text(409, "could not allocate subdomain"));
        }
        if tunnels_len(&self.tunnels) >= MAX_TUNNELS {
            return Err(Reply::text(503, "too many tunnels"));
        }
        let handle = TunnelHandle {
            tunnel_id,
            serial: self.made,
            sender: Slot::Vacant,
            created_at: now,
        };
        self.made = if self.made == u64::MAX {
            0
        } else {
            self.made + 1
        };
        tunnels_insert(&mut self.tunnels, subdomain.clone(), handle);
        ids_insert(&mut self.by_id, tunnel_id, subdomain.clone());
        let public_url = self.public_url(subdomain.as_str());
        Ok(CreateResp { tunnel_id, subdomain, public_url, connect_addr: self.data_public.clone() })
    }

    /// Makes a tunnel with the first of the candidates that is free. No more than [`MAX_DRAWS`] of
    /// them are looked at.
    pub fn create_from(&mut self, candidates: &Vec<String>, tunnel_id: TunnelId, now: u64) -> (r:
        Result<CreateResp, Reply>)
        ensures
            (final(self)@, answer_of(r)) == old(self)@.creation_from(
                texts(candidates@),
                tunnel_id,
                now,
            ),
    {
        let n: usize = candidates.len();
        let mut i: usize = 0;
        while i < n && i < MAX_DRAWS
            invariant
                i <= n,
                i <= MAX_DRAWS,
                n == candidates@.len(),
                self@ == old(self)@,
                self@.first_free(texts(candidates@), 0) == self@.first_free(
                    texts(candidates@),
                    i as int,
                ),
            decreases n - i,
        {
            assert(texts(candidates@)[i as int] == candidates@[i as int]@);
            if tunnels_get(&self.tunnels, candidates[i].as_str()).is_none() {
                return self.create_with(candidates[i].clone(), tunnel_id, now);
            }
            i += 1;
        }
        Err(Reply::text(409, "could not allocate subdomain"))
    }

    /// Makes a tunnel with a subdomain and an id drawn at random.
    pub fn create_tunnel(
        &mut self,
        headers: &HeaderMap<HeaderValue>,
        words: &Vec<String>,
        now: u64,
    ) -> (r: Result<CreateResp, Reply>)
        requires
            words@.len() > 0,
        ensures
            exists|candidates: Seq<Seq<char>>, id: TunnelId|
                {
                    &&& authorized(headers_of(*headers), old(self)@.secret) ==> {
                        &&& drawn(texts(words@), candidates)
                        &&& random_uuid(id@)
                    }
                    &&& (final(self)@, answer_of(r)) == #[trigger] old(self)@.creation_asked(
                        headers_of(*headers),
                        candidates,
                        id,
                        now,
                    )
                },
    {
        let ghost state = self@;
        if !check_auth(headers, self.secret.as_str()) {
            let reply = unauth_as_404();
            proof {
                let id: TunnelId = arbitrary();
                assert((state, Err::<CreateRespView, ReplyView>(reply@)) == state.creation_asked(
                    headers_of(*headers),
                    Seq::empty(),
                    id,
                    now,
                ));
            }
            return Err(reply);
        }
        let candidates = draw_candidates(words);
        let tunnel_id = new_uuid();
        let r = self.create_from(&candidates, tunnel_id, now);
        proof {
            assert((self@, answer_of(r)) == state.creation_asked(
                headers_of(*headers),
                texts(candidates@),
                tunnel_id,
                now,
            ));
        }
        r
    }

    /// All tunnels, each once, in an order of their own.
    pub fn list_tunnels(&self, headers: &HeaderMap<HeaderValue>) -> (r: Result<
        Vec<ListItem>,
        Reply,
    >)
        ensures
            match r {
                Ok(items) => {
                    &&& authorized(headers_of(*headers), self@.secret)
                    &&& self@.listed(items@)
                },
                Err(reply) => {
                    &&& !authorized(headers_of(*headers), self@.secret)
                    &&& reply@ == not_found()
                },
            },
    {
        if !check_auth(headers, self.secret.as_str()) {
            return Err(unauth_as_404());
        }
        let entries = tunnels_entries(&self.tunnels);
        let mut items: Vec<ListItem> = Vec::new();
        let n: usize = entries.len();
        let mut i: usize = 0;
        while i < n
            invariant
                i <= n,
                n == entries@.len(),
                items@.len() == i,
                forall|j: int|
                    0 <= j < i ==> {
                        &&& (#[trigger] items@[j]).tunnel_id == entries@[j].1.tunnel_id
                        &&& items@[j].subdomain@ == entries@[j].0@
                        &&& items@[j].public_url@ == self@.public_url(entries@[j].0@)
                    },
            decreases n - i,
        {
            let sub = entries[i].0.clone();
            let public_url = self.public_url(sub.as_str());
            items.push(ListItem { tunnel_id: entries[i].1.tunnel_id, subdomain: sub, public_url });
            i += 1;
        }
        proof {
            assert forall|k: Seq<char>| #[trigger] self@.tunnels.contains_key(k) implies exists|
                j: int,
            |
                0 <= j < items@.len() && (#[trigger] items@[j]).subdomain@ == k by {
                let j = choose|j: int| 0 <= j < entries@.len() && (#[trigger] entries@[j]).0@ == k;
                assert(items@[j].subdomain@ == k);
            }
            assert forall|a: int, b: int|
                0 <= a < items@.len() && 0 <= b < items@.len() && a != b implies (
            #[trigger] items@[a]).subdomain@ != (#[trigger] items@[b]).subdomain@ by {
                assert(entries@[a].0@ != entries@[b].0@);
            }
            assert forall|a: int| 0 <= a < items@.len() implies self@.lists(
                #[trigger] items@[a],
            ) by {
                assert(tunnels_of(self.tunnels).contains_key(entries@[a].0@));
            }
        }
        Ok(items)
    }

    /// Removes the tunnel with this id.
    pub fn delete_tunnel(&mut self, headers: &HeaderMap<HeaderValue>, id: &TunnelId) -> (r:
        Deletion)
        ensures
            !authorized(headers_of(*headers), old(self)@.secret) ==> {
                &&& final(self)@ == old(self)@
                &&& r.reply@ == not_found()
                &&& r.released is None
            },
            authorized(headers_of(*headers), old(self)@.secret) ==> {
                &&& (final(self)@, r.reply@) == old(self)@.deletion(id@)
                &&& handle_if(r.released) == match old(self)@.found(id@) {
                    Some(sub) => Some(old(self)@.handle(sub)),
                    None => None,
                }
            },
    {
        if !check_auth(headers, self.secret.as_str()) {
            return Deletion { reply: unauth_as_404(), released: None };
        }
        match ids_remove(&mut self.by_id, id) {
            Some(sub) => {
                let released = match self.evict(sub.as_str()) {
                    Some(handle) => Some(
                        Handle {
                            subdomain: sub,
                            tunnel_id: handle.tunnel_id,
                            serial: handle.serial,
                        },
                    ),
                    None => None,
                };
                Deletion { reply: Reply::bare(204), released }
            },
            None => {
                proof {
                    assert(self@.by_id =~= old(self)@.by_id);
                    assert(self@ =~= old(self)@);
                }
                Deletion { reply: Reply::bare(404), released: None }
            },
        }
    }

    /// Removes every tunnel that has waited for its client for too long, and tells which.
    pub fn run_reaper(&mut self, now: u64) -> (r: Vec<(String, TunnelId)>)
        ensures
            final(self)@ == old(self)@.reaped(now),
            forall|i: int|
                0 <= i < r@.len() ==> {
                    &&& old(self)@.tunnels.contains_key((#[trigger] r@[i]).0@)
                    &&& stale(old(self)@.tunnels[r@[i].0@], now)
                    &&& old(self)@.tunnels[r@[i].0@].tunnel_id == r@[i].1
                },
            forall|sub: Seq<char>| #[trigger]
                old(self)@.tunnels.contains_key(sub) && stale(old(self)@.tunnels[sub], now)
                    ==> exists|i: int| 0 <= i < r@.len() && (#[trigger] r@[i]).0@ == sub,
            forall|i: int, j: int|
                0 <= i < r@.len() && 0 <= j < r@.len() && i != j ==> (#[trigger] r@[i]).0@ != (
                #[trigger] r@[j]).0@,
    {
        let gone = self.waited_too_long(now);
        let ghost before = self@;
        let n: usize = gone.len();
        let mut i: usize = 0;
        while i < n
            invariant
                i <= n,
                n == gone@.len(),
                before == old(self)@,
                self@ == (StateView { tunnels: self@.tunnels, by_id: self@.by_id, ..before }),
                forall|k: Seq<char>| #[trigger]
                    self@.tunnels.contains_key(k) <==> before.tunnels.contains_key(k) && !(exists|
                        j: int,
                    |
                        0 <= j < i && (#[trigger] gone@[j]).0@ == k),
                forall|k: Seq<char>|
                    self@.tunnels.contains_key(k) ==> #[trigger] self@.tunnels[k]
                        == before.tunnels[k],
                forall|id: Seq<u8>| #[trigger]
                    self@.by_id.contains_key(id) <==> before.by_id.contains_key(id) && !(exists|
                        j: int,
                    |
                        0 <= j < i && (#[trigger] gone@[j]).1@ == id),
                forall|id: Seq<u8>|
                    self@.by_id.contains_key(id) ==> #[trigger] self@.by_id[id]
                        == before.by_id[id],
            decreases n - i,
        {
            tunnels_remove(&mut self.tunnels, gone[i].0.as_str());
            ids_remove(&mut self.by_id, &gone[i].1);
            i += 1;
        }
        proof {
            let after = before.reaped(now);
            assert forall|k: Seq<char>| #[trigger]
                self@.tunnels.contains_key(k) <==> after.tunnels.contains_key(k) by {
                if before.tunnels.contains_key(k) && stale(before.tunnels[k], now) {
                    let j = choose|j: int| 0 <= j < gone@.len() && (#[trigger] gone@[j]).0@ == k;
                    assert(0 <= j < n && gone@[j].0@ == k);
                }
            }
            assert(self@.tunnels =~= after.tunnels);
            assert forall|id: Seq<u8>| #[trigger]
                self@.by_id.contains_key(id) <==> after.by_id.contains_key(id) by {
                if before.stale_id(id, now) {
                    let k = choose|k: Seq<char>| #[trigger]
                        before.tunnels.contains_key(k) && stale(before.tunnels[k], now)
                            && before.tunnels[k].tunnel_id@ == id;
                    let j = choose|j: int| 0 <= j < gone@.len() && (#[trigger] gone@[j]).0@ == k;
                    assert(0 <= j < n && gone@[j].1@ == id);
                }
                if exists|j: int| 0 <= j < n && (#[trigger] gone@[j]).1@ == id {
                    let j = choose|j: int| 0 <= j < n && (#[trigger] gone@[j]).1@ == id;
                    assert(before.tunnels.contains_key(gone@[j].0@));
                    assert(before.stale_id(id, now));
                }
            }
            assert(self@.by_id =~= after.by_id);
        }
        gone
    }

    /// The tunnels that have waited for their client for too long.
    fn waited_too_long(&self, now: u64) -> (r: Vec<(String, TunnelId)>)
        ensures
            forall|i: int|
                0 <= i < r@.len() ==> {
                    &&& self@.tunnels.contains_key((#[trigger] r@[i]).0@)
                    &&& stale(self@.tunnels[r@[i].0@], now)
                    &&& self@.tunnels[r@[i].0@].tunnel_id == r@[i].1
                },
            forall|sub: Seq<char>| #[trigger]
                self@.tunnels.contains_key(sub) && stale(self@.tunnels[sub], now) ==> exists|
                    i: int,
                |
                    0 <= i < r@.len() && (#[trigger] r@[i]).0@ == sub,
            forall|i: int, j: int|
                0 <= i < r@.len() && 0 <= j < r@.len() && i != j ==> (#[trigger] r@[i]).0@ != (
                #[trigger] r@[j]).0@,
    {
        let entries = tunnels_entries(&self.tunnels);
        let mut gone: Vec<(String, TunnelId)> = Vec::new();
        let n: usize = entries.len();
        let mut i: usize = 0;
        while i < n
            invariant
                i <= n,
                n == entries@.len(),
                forall|a: int, b: int|
                    0 <= a < n && 0 <= b < n && a != b ==> (#[trigger] entries@[a]).0@ != (
                    #[trigger] entries@[b]).0@,
                forall|a: int|
                    0 <= a < n ==> {
                        &&& self@.tunnels.contains_key((#[trigger] entries@[a]).0@)
                        &&& self@.tunnels[entries@[a].0@] == entries@[a].1
                    },
                forall|a: int|
                    0 <= a < gone@.len() ==> exists|b: int|
                        0 <= b < i && (#[trigger] entries@[b]).0@ == (#[trigger] gone@[a]).0@,
                forall|a: int|
                    0 <= a < gone@.len() ==> {
                        &&& self@.tunnels.contains_key((#[trigger] gone@[a]).0@)
                        &&& stale(self@.tunnels[gone@[a].0@], now)
                        &&& self@.tunnels[gone@[a].0@].tunnel_id == gone@[a].1
                    },
                forall|a: int, b: int|
                    0 <= a < gone@.len() && 0 <= b < gone@.len() && a != b ==> (
                    #[trigger] gone@[a]).0@ != (#[trigger] gone@[b]).0@,
                forall|b: int|
                    0 <= b < i && stale((#[trigger] entries@[b]).1, now) ==> exists|a: int|
                        0 <= a < gone@.len() && (#[trigger] gone@[a]).0@ == entries@[b].0@,
            decreases n - i,
        {
            let handle = entries[i].1;
            let vacant = match handle.sender {
                Slot::Vacant => true,
                _ => false,
            };
            let ghost before = gone@;
            if vacant && now > handle.created_at && now - handle.created_at > ATTACH_DEADLINE {
                gone.push((entries[i].0.clone(), handle.tunnel_id));
                proof {
                    assert(gone@.last().0@ == entries@[i as int].0@);
                    assert forall|a: int, b: int|
                        0 <= a < gone@.len() && 0 <= b < gone@.len() && a != b implies (
                    #[trigger] gone@[a]).0@ != (#[trigger] gone@[b]).0@ by {
                        let last = gone@.len() - 1;
                        if a == last || b == last {
                            let other = if a == last {
                                b
                            } else {
                                a
                            };
                            assert(gone@[other] == before[other]);
                            let c = choose|c: int|
                                0 <= c < i && (#[trigger] entries@[c]).0@ == before[other].0@;
                            assert(entries@[c].0@ != entries@[i as int].0@);
                        } else {
                            assert(gone@[a] == before[a]);
                            assert(gone@[b] == before[b]);
                        }
                    }
                }
            }
            proof {
                assert forall|b: int| 0 <= b < i + 1 && stale((#[trigger] entries@[b]).1, now) implies exists|
                    a: int,
                |
                    0 <= a < gone@.len() && (#[trigger] gone@[a]).0@ == entries@[b].0@ by {
                    if b < i {
                        let a = choose|a: int|
                            0 <= a < before.len() && (#[trigger] before[a]).0@ == entries@[b].0@;
                        assert(gone@[a] == before[a]);
                    } else {
                        assert(gone@[gone@.len() - 1].0@ == entries@[b].0@);
                    }
                }
                assert forall|a: int| 0 <= a < gone@.len() implies exists|b: int|
                    0 <= b < i + 1 && (#[trigger] entries@[b]).0@ == (#[trigger] gone@[a]).0@ by {
                    if a < before.len() {
                        assert(gone@[a] == before[a]);
                        let c = choose|c: int|
                            0 <= c < i && (#[trigger] entries@[c]).0@ == before[a].0@;
                        assert(entries@[c].0@ == gone@[a].0@);
                    } else {
                        assert(entries@[i as int].0@ == gone@[a].0@);
                    }
                }
            }
            i += 1;
        }
        proof {
            assert forall|sub: Seq<char>| #[trigger]
                self@.tunnels.contains_key(sub) && stale(self@.tunnels[sub], now) implies exists|
                    a: int,
                |
                0 <= a < gone@.len() && (#[trigger] gone@[a]).0@ == sub by {
                let b = choose|b: int| 0 <= b < n && (#[trigger] entries@[b]).0@ == sub;
                assert(stale(entries@[b].1, now));
            }
        }
        gone
    }

    /// Takes the tunnel under a subdomain out of its table, and keeps its place if somebody has
    /// it.
    fn evict(&mut self, subdomain: &str) -> (r: Option<TunnelHandle>)
        ensures
            final(self)@ == old(self)@.evicted(subdomain@),
            r == if old(self)@.tunnels.contains_key(subdomain@) {
                Some(old(self)@.tunnels[subdomain@])
            } else {
                None
            },
    {
        let r = tunnels_remove(&mut self.tunnels, subdomain);
        match &r {
            Some(handle) => self.put_revoked(handle.serial, handle.sender),
            None => {
                proof {
                    assert(self@.tunnels =~= old(self)@.tunnels);
                }
            },
        }
        r
    }

    /// Changes the place of a tunnel that is in the tables no more.
    fn put_revoked(&mut self, serial: u64, slot: Slot)
        ensures
            final(self)@ == old(self)@.with_revoked(serial, slot),
    {
        match slot {
            Slot::Vacant => {
                self.revoked.remove(&serial);
            },
            _ => {
                self.revoked.insert(serial, slot);
            },
        }
    }

    /// A tunnel's record, if the tunnel is still in the tables.
    fn standing(&self, handle: &Handle) -> (r: Option<TunnelHandle>)
        ensures
            r == if self@.stands(handle@) {
                Some(self@.tunnels[handle@.subdomain])
            } else {
                None
            },
    {
        match tunnels_get(&self.tunnels, handle.subdomain.as_str()) {
            Some(record) if record.serial == handle.serial => Some(record),
            _ => None,
        }
    }

    /// A tunnel's place.
    fn slot_of(&self, handle: &Handle) -> (r: Slot)
        ensures
            r == self@.slot(handle@),
    {
        match self.standing(handle) {
            Some(record) => record.sender,
            None => match self.revoked.get(&handle.serial) {
                Some(slot) => *slot,
                None => Slot::Vacant,
            },
        }
    }

    /// Changes a tunnel's place.
    fn put_slot(&mut self, handle: &Handle, slot: Slot)
        ensures
            final(self)@ == old(self)@.with_slot(handle@, slot),
    {
        match self.standing(handle) {
            Some(record) => {
                let record = TunnelHandle { sender: slot, ..record };
                tunnels_insert(&mut self.tunnels, handle.subdomain.clone(), record);
            },
            None => self.put_revoked(handle.serial, slot),
        }
    }

    /// Finds the tunnel that a client's prelude names.
    pub fn find(&self, prelude: &Prelude) -> (r: Lookup)
        ensures
            r@ == self@.lookup(prelude@),
    {
        if !constant_time_eq(prelude.token.as_slice(), self.secret.as_str().as_bytes()) {
            return Lookup::BadToken;
        }
        let subdomain = match ids_get(&self.by_id, &prelude.tunnel_id) {
            Some(sub) => sub,
            None => {
                return Lookup::NoSuchTunnel;
            },
        };
        match tunnels_get(&self.tunnels, subdomain.as_str()) {
            None => Lookup::NoSuchTunnel,
            Some(record) => Lookup::Found(
                Handle { subdomain, tunnel_id: record.tunnel_id, serial: record.serial },
            ),
        }
    }

    /// Decides about a client that has found its tunnel, and keeps the tunnel's place for it if
    /// it may come in.
    pub fn let_in(&mut self, handle: &Handle) -> (r: Admission)
        ensures
            (final(self)@, r) == old(self)@.admission(handle@),
    {
        match self.slot_of(handle) {
            Slot::Attached => Admission::AlreadyAttached,
            Slot::Held => Admission::Busy,
            Slot::Vacant => {
                self.put_slot(handle, Slot::Held);
                Admission::Admitted
            },
        }
    }

    /// Records that a client that was being let in is there, or has failed.
    pub fn settle(&mut self, handle: &Handle, attached: bool)
        ensures
            final(self)@ == old(self)@.settled(handle@, attached),
    {
        match self.slot_of(handle) {
            Slot::Held => {
                if attached {
                    self.put_slot(handle, Slot::Attached);
                } else {
                    self.put_slot(handle, Slot::Vacant);
                }
            },
            _ => {},
        }
    }

    /// Drops the tunnel of a client that has left, unless another is being let in: then nothing
    /// happens and the answer is `false`.
    pub fn detach(&mut self, handle: &Handle) -> (r: bool)
        ensures
            (final(self)@, r) == old(self)@.departure(handle@),
    {
        match self.slot_of(handle) {
            Slot::Held => {
                return false;
            },
            _ => {},
        }
        self.put_slot(handle, Slot::Vacant);
        let own = match tunnels_get(&self.tunnels, handle.subdomain.as_str()) {
            Some(record) => constant_time_eq(&record.tunnel_id, &handle.tunnel_id),
            None => false,
        };
        if own {
            self.evict(handle.subdomain.as_str());
        }
        ids_remove(&mut self.by_id, &handle.tunnel_id);
        true
    }

    /// Lets the client of a deleted tunnel go, unless one is being let in: then nothing happens
    /// and the answer is `false`.
    pub fn release(&mut self, handle: &Handle) -> (r: bool)
        ensures
            (final(self)@, r) == old(self)@.release(handle@),
    {
        match self.slot_of(handle) {
            Slot::Held => false,
            _ => {
                self.put_slot(handle, Slot::Vacant);
                true
            },
        }
    }

    /// The tunnel under a subdomain.
    pub fn tunnel_at(&self, subdomain: &str) -> (r: Option<Handle>)
        ensures
            handle_if(r) == if self@.taken(subdomain@) {
                Some(self@.handle(subdomain@))
            } else {
                None
            },
    {
        match tunnels_get(&self.tunnels, subdomain) {
            None => None,
            Some(record) => Some(
                Handle {
                    subdomain: subdomain.to_owned(),
                    tunnel_id: record.tunnel_id,
                    serial: record.serial,
                },
            ),
        }
    }

    /// Whom a request reaches through a tunnel that was found.
    pub fn reach(&self, handle: &Handle) -> (r: Reached)
        ensures
            r == self@.reached_at(handle@),
    {
        match self.slot_of(handle) {
            Slot::Vacant => Reached::Nobody,
            Slot::Held => Reached::Busy,
            Slot::Attached => Reached::Client(handle.serial),
        }
    }

    /// Where a request with these headers goes.
    pub fn host_fallback(&self, headers: &HeaderMap<HeaderValue>) -> (r: HostRoute)
        ensures
            r@ == self@.route(headers_of(*headers)),
            is_ascii_chars(self@.domain) ==> r@ == self@.ascii_route(headers_of(*headers)),
    {
        proof {
            reveal_strlit("host");
            assert(ascii_lower("host"@) =~= "host"@);
        }
        let host = match get_text(headers, "host") {
            Some(s) => {
                let cs = chars_of(s.as_str());
                let at: usize = first_index(&cs, ':', 0);
                let name = vstd::slice::slice_subrange(&cs, 0, at);
                proof {
                    assert(name@ =~= before_first(s@, ':'));
                    lemma_value_text_is_ascii(headers_of(*headers), "host"@);
                }
                text_of(name)
            },
            None => String::new(),
        };
        let host = to_lowercase(host.as_str());
        let domain = to_lowercase(self.domain.as_str());
        route_host(host.as_str(), domain.as_str())
    }

    /// The apex under which the tunnels are found.
    pub fn domain(&self) -> (r: &str)
        ensures
            r@ == self@.domain,
    {
        self.domain.as_str()
    }

    /// The address that the server is found at.
    pub fn public_base(&self) -> (r: &str)
        ensures
            r@ == self@.public_base,
    {
        self.public_base.as_str()
    }
}

impl StateView {
    /// Whether an item of a listing speaks of a tunnel that exists.
    pub open spec fn lists(self, item: ListItem) -> bool {
        &&& self.tunnels.contains_key(item.subdomain@)
        &&& self.tunnels[item.subdomain@].tunnel_id == item.tunnel_id
        &&& item.public_url@ == self.public_url(item.subdomain@)
    }

    /// Whether a listing has every tunnel once, and nothing else.
    pub open spec fn listed(self, items: Seq<ListItem>) -> bool {
        &&& forall|i: int| 0 <= i < items.len() ==> self.lists(#[trigger] items[i])
        &&& forall|sub: Seq<char>| #[trigger]
            self.tunnels.contains_key(sub) ==> exists|i: int|
                0 <= i < items.len() && (#[trigger] items[i]).subdomain@ == sub
        &&& forall|i: int, j: int|
            0 <= i < items.len() && 0 <= j < items.len() && i != j ==> (
            #[trigger] items[i]).subdomain@ != (#[trigger] items[j]).subdomain@
    }
}

/// Tunnels and answers are seen by contracts as they are.
pub proof fn law_tunnels_are_seen_whole(
    h: Handle,
    l: Lookup,
    resp: CreateResp,
    answer: Result<CreateResp, Reply>,
    found: Option<Handle>,
)
    ensures
        h@.subdomain == h.subdomain@ && h@.tunnel_id == h.tunnel_id && h@.serial == h.serial,
        match l {
            Lookup::BadToken => l@ is BadToken,
            Lookup::NoSuchTunnel => l@ is NoSuchTunnel,
            Lookup::Found(f) => l@ == LookupView::Found(f@),
        },
        resp@.tunnel_id == resp.tunnel_id,
        resp@.subdomain == resp.subdomain@,
        resp@.public_url == resp.public_url@,
        resp@.connect_addr == resp.connect_addr@,
        match answer {
            Ok(r) => answer_of(answer) is Ok && answer_of(answer)->Ok_0 == r@,
            Err(e) => answer_of(answer) is Err && answer_of(answer)->Err_0 == e@,
        },
        match found {
            Some(f) => handle_if(found) == Some(f@),
            None => handle_if(found) is None,
        },
{
}

} // verus!
