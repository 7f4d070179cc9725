//! What holds of tunnels over their life: how they are found, that each has at most one
//! client, and when they end.

use vstd::prelude::*;
use vstd::utf8::{encode_utf8, is_ascii_chars};

use crate::auth::authorized;
use crate::headers::{first_text, lemma_value_text_is_ascii};
use crate::host::{host_route, law_label_leads_to_its_tunnel, HostRouteView};
use crate::names::is_subdomain;
use crate::outside::lowercase::lowercase_of;
use crate::proto::{PreludeView, TunnelId};
use crate::reply::bare_reply;
use crate::state::{
    drawn, following, stale, Admission, HandleView, ListItem, LookupView, Reached, Slot, StateView,
    TunnelHandle, ATTACH_DEADLINE, MAX_DRAWS, MAX_TUNNELS,
};
use crate::text::{
    ascii_lower, find_from, first_from, law_found_at_its_first_occurrence, lemma_first_from,
    lower_char, occurs_at,
};

verus! {

/// Every tunnel is found by its id, and every id leads to the tunnel that has it.
pub open spec fn indexed(state: StateView) -> bool {
    &&& forall|sub: Seq<char>| #[trigger]
        state.tunnels.contains_key(sub) ==> {
            &&& state.by_id.contains_key(state.tunnels[sub].tunnel_id@)
            &&& state.by_id[state.tunnels[sub].tunnel_id@] == sub
        }
    &&& forall|id: Seq<u8>| #[trigger]
        state.by_id.contains_key(id) ==> {
            &&& state.tunnels.contains_key(state.by_id[id])
            &&& state.tunnels[state.by_id[id]].tunnel_id@ == id
        }
}

/// Whether no tunnel has this id.
pub open spec fn unused(state: StateView, id: Seq<u8>) -> bool {
    forall|sub: Seq<char>| #[trigger]
        state.tunnels.contains_key(sub) ==> state.tunnels[sub].tunnel_id@ != id
}

/// No two tunnels that are found by their ids share one.
pub proof fn law_ids_are_distinct(state: StateView, a: Seq<char>, b: Seq<char>)
    requires
        indexed(state),
        state.tunnels.contains_key(a),
        state.tunnels.contains_key(b),
        state.tunnels[a].tunnel_id@ == state.tunnels[b].tunnel_id@,
    ensures
        a == b,
{
}

/// The tables of a server that has just started agree.
pub proof fn law_no_tunnels_are_indexed(state: StateView)
    requires
        state.tunnels == Map::<Seq<char>, TunnelHandle>::empty(),
        state.by_id == Map::<Seq<u8>, Seq<char>>::empty(),
    ensures
        indexed(state),
{
}

/// Making a tunnel with an id that no tunnel has leaves the tables in agreement.
pub proof fn law_creation_keeps_index(state: StateView, sub: Seq<char>, id: TunnelId, now: u64)
    requires
        indexed(state),
        state.creation(sub, id, now).1 is Ok ==> unused(state, id@),
    ensures
        indexed(state.creation(sub, id, now).0),
{
}

/// Deleting leaves the tables in agreement.
pub proof fn law_deletion_keeps_index(state: StateView, id: Seq<u8>)
    requires
        indexed(state),
    ensures
        indexed(state.deletion(id).0),
{
}

/// Reaping leaves the tables in agreement.
pub proof fn law_reaping_keeps_index(state: StateView, now: u64)
    requires
        indexed(state),
    ensures
        indexed(state.reaped(now)),
{
    let after = state.reaped(now);
    assert forall|sub: Seq<char>| #[trigger] after.tunnels.contains_key(sub) implies {
        &&& after.by_id.contains_key(after.tunnels[sub].tunnel_id@)
        &&& after.by_id[after.tunnels[sub].tunnel_id@] == sub
    } by {
        assert(state.tunnels.contains_key(sub));
        let id = state.tunnels[sub].tunnel_id@;
        if state.stale_id(id, now) {
            let other = choose|other: Seq<char>| #[trigger]
                state.tunnels.contains_key(other) && stale(state.tunnels[other], now)
                    && state.tunnels[other].tunnel_id@ == id;
            law_ids_are_distinct(state, sub, other);
        }
    }
}

/// Letting clients in leaves the tables in agreement.
pub proof fn law_admission_keeps_index(state: StateView, h: HandleView)
    requires
        indexed(state),
    ensures
        indexed(state.admission(h).0),
{
}

/// Settling leaves the tables in agreement.
pub proof fn law_settling_keeps_index(state: StateView, h: HandleView, attached: bool)
    requires
        indexed(state),
    ensures
        indexed(state.settled(h, attached)),
{
}

/// Letting clients go leaves the tables in agreement.
pub proof fn law_releasing_keeps_index(state: StateView, h: HandleView)
    requires
        indexed(state),
    ensures
        indexed(state.release(h).0),
{
}

/// A client that leaves takes its own tunnel with it and leaves the tables in agreement, as
/// long as its id was not given to a tunnel with another subdomain meanwhile.
pub proof fn law_detaching_keeps_index(state: StateView, h: HandleView)
    requires
        indexed(state),
        state.by_id.contains_key(h.tunnel_id@) ==> state.by_id[h.tunnel_id@] == h.subdomain,
    ensures
        indexed(state.departure(h).0),
{
}

/// Whether a tunnel that somebody found is known by its serial number: no other tunnel in the
/// tables has it, and none that will be made.
pub open spec fn known(state: StateView, h: HandleView) -> bool {
    &&& h.serial < state.made
    &&& forall|sub: Seq<char>| #[trigger]
        state.tunnels.contains_key(sub) && state.tunnels[sub].serial == h.serial ==> sub
            == h.subdomain
}

/// Whether every tunnel has a serial number of its own, be it in the tables or not.
pub open spec fn numbered(state: StateView) -> bool {
    &&& forall|sub: Seq<char>| #[trigger]
        state.tunnels.contains_key(sub) ==> known(state, state.handle(sub))
    &&& forall|sub: Seq<char>| #[trigger]
        state.tunnels.contains_key(sub) ==> !state.revoked.contains_key(
            state.tunnels[sub].serial,
        )
    &&& forall|serial: u64| #[trigger] state.revoked.contains_key(serial) ==> serial < state.made
}

/// Whatever happens, every tunnel keeps a serial number of its own, as long as there is a
/// number left for a tunnel that is made.
pub proof fn law_tunnels_stay_numbered(
    state: StateView,
    sub: Seq<char>,
    id: TunnelId,
    now: u64,
    h: HandleView,
    attached: bool,
)
    requires
        numbered(state),
        known(state, h),
    ensures
        state.made < u64::MAX ==> numbered(state.creation(sub, id, now).0),
        numbered(state.deletion(id@).0),
        numbered(state.reaped(now)),
        numbered(state.admission(h).0),
        numbered(state.settled(h, attached)),
        numbered(state.release(h).0),
        numbered(state.departure(h).0),
{
}

/// Whatever happens, one who found a tunnel still knows it by its serial number, as long as
/// there is a number left for a tunnel that is made.
pub proof fn law_handles_stay_known(
    state: StateView,
    sub: Seq<char>,
    id: TunnelId,
    now: u64,
    h: HandleView,
    other: HandleView,
    attached: bool,
)
    requires
        known(state, h),
    ensures
        state.made < u64::MAX ==> known(state.creation(sub, id, now).0, h),
        known(state.deletion(id@).0, h),
        known(state.reaped(now), h),
        known(state.admission(other).0, h),
        known(state.settled(other, attached), h),
        known(state.release(other).0, h),
        known(state.departure(other).0, h),
{
}

/// A tunnel that was made is found by its id, has its subdomain, and reaches nobody until its
/// client comes.
pub proof fn law_created_tunnel_is_found(state: StateView, sub: Seq<char>, id: TunnelId, now: u64)
    requires
        state.creation(sub, id, now).1 is Ok,
    ensures
        ({
            let after = state.creation(sub, id, now).0;
            &&& after.found(id@) == Some(sub)
            &&& after.taken(sub)
            &&& after.reached(sub) == Reached::Nobody
        }),
        forall|other: Seq<char>|
            other != sub ==> #[trigger] state.creation(sub, id, now).0.reached(other)
                == state.reached(other),
{
}

/// The subdomain cannot be chosen: whatever else two requests with the right token say, the same
/// draws give them the same answer.
pub proof fn law_subdomain_cannot_be_chosen(
    state: StateView,
    one: Map<Seq<char>, Seq<Seq<u8>>>,
    other: Map<Seq<char>, Seq<Seq<u8>>>,
    candidates: Seq<Seq<char>>,
    id: TunnelId,
    now: u64,
)
    requires
        authorized(one, state.secret),
        authorized(other, state.secret),
    ensures
        state.creation_asked(one, candidates, id, now) == state.creation_asked(
            other,
            candidates,
            id,
            now,
        ),
{
}

/// A tunnel gets the first candidate that is free among those that are looked at, unless there
/// are too many tunnels.
pub proof fn law_first_free_candidate_is_taken(
    state: StateView,
    candidates: Seq<Seq<char>>,
    id: TunnelId,
    now: u64,
    i: int,
)
    requires
        0 <= i < candidates.len(),
        i < MAX_DRAWS,
        !state.taken(candidates[i]),
        forall|j: int| 0 <= j < i ==> state.taken(#[trigger] candidates[j]),
    ensures
        state.creation_from(candidates, id, now) == state.creation(candidates[i], id, now),
        !state.full() ==> (state.creation_from(candidates, id, now).1 matches Ok(resp)
            && resp.subdomain == candidates[i]),
{
    lemma_first_free(state, candidates, 0, i);
}

/// The first free candidate is found.
proof fn lemma_first_free(state: StateView, candidates: Seq<Seq<char>>, from: int, i: int)
    requires
        0 <= from <= i < candidates.len(),
        i < MAX_DRAWS,
        !state.taken(candidates[i]),
        forall|j: int| 0 <= j < i ==> state.taken(#[trigger] candidates[j]),
    ensures
        state.first_free(candidates, from) == Some(i),
    decreases i - from,
{
    if from < i {
        assert(state.taken(candidates[from]));
        lemma_first_free(state, candidates, from + 1, i);
    }
}

/// A refused request to make a tunnel changes nothing.
pub proof fn law_refused_creation_changes_nothing(
    state: StateView,
    sub: Seq<char>,
    id: TunnelId,
    now: u64,
)
    requires
        state.creation(sub, id, now).1 is Err,
    ensures
        state.creation(sub, id, now).0 == state,
{
}

/// Whether there are no more tunnels than the server keeps at most.
pub open spec fn bounded(state: StateView) -> bool {
    &&& state.tunnels.dom().finite()
    &&& state.tunnels.dom().len() <= MAX_TUNNELS
}

/// Whatever happens, there are never more tunnels than the server keeps at most.
pub proof fn law_tunnels_stay_bounded(
    state: StateView,
    sub: Seq<char>,
    id: TunnelId,
    now: u64,
    h: HandleView,
    attached: bool,
)
    requires
        bounded(state),
    ensures
        bounded(state.creation(sub, id, now).0),
        bounded(state.deletion(id@).0),
        bounded(state.reaped(now)),
        bounded(state.admission(h).0),
        bounded(state.settled(h, attached)),
        bounded(state.release(h).0),
        bounded(state.departure(h).0),
{
    let all = state.tunnels.dom();
    if !state.taken(sub) && !state.full() {
        assert(state.with_tunnel(sub, id, now).tunnels.dom() =~= all.insert(sub));
    }
    lemma_evicting_adds_none(state, state.by_id[id@]);
    let left = state.reaped(now).tunnels.dom();
    assert(left.subset_of(all));
    vstd::set_lib::lemma_len_subset(left, all);
    assert forall|slot: Slot| (#[trigger] state.with_slot(h, slot)).tunnels.dom() == all by {
        assert(state.with_slot(h, slot).tunnels.dom() =~= all);
    }
    lemma_evicting_adds_none(state.with_slot(h, Slot::Vacant), h.subdomain);
}

/// Taking a tunnel out of the tables leaves no more of them.
proof fn lemma_evicting_adds_none(state: StateView, sub: Seq<char>)
    requires
        bounded(state),
    ensures
        bounded(state.evicted(sub)),
{
    let all = state.tunnels.dom();
    vstd::set_lib::lemma_len_subset(all.remove(sub), all);
    if state.tunnels.contains_key(sub) {
        assert(state.evicted(sub).tunnels.dom() =~= all.remove(sub));
    }
}

/// The client of a tunnel that was made, and nobody else has come to, is let in.
pub proof fn law_first_client_comes_in(
    state: StateView,
    sub: Seq<char>,
    id: TunnelId,
    now: u64,
)
    requires
        state.creation(sub, id, now).1 is Ok,
    ensures
        ({
            let made = state.creation(sub, id, now).0;
            let prelude = PreludeView { tunnel_id: id@, token: encode_utf8(state.secret) };
            &&& made.lookup(prelude) == LookupView::Found(made.handle(sub))
            &&& made.handle(sub).tunnel_id == id
            &&& made.admission(made.handle(sub)).1 == Admission::Admitted
        }),
{
}

/// One client per tunnel: while a client is being let in, another has to wait, and once it is
/// there, another is refused. Either way the other changes nothing.
pub proof fn law_one_client_per_tunnel(state: StateView, h: HandleView)
    requires
        state.admission(h).1 == Admission::Admitted,
    ensures
        ({
            let held = state.admission(h).0;
            let there = held.settled(h, true);
            &&& held.admission(h) == (held, Admission::Busy)
            &&& there.admission(h) == (there, Admission::AlreadyAttached)
            &&& there.reached_at(h) == Reached::Client(h.serial)
        }),
{
}

/// A client that fails while it is let in leaves the tunnel as it was.
pub proof fn law_failed_client_leaves_no_trace(state: StateView, h: HandleView)
    requires
        state.admission(h).1 == Admission::Admitted,
        state.stands(h) || !state.revoked.contains_key(h.serial),
    ensures
        state.admission(h).0.settled(h, false) == state,
{
    let back = state.admission(h).0.settled(h, false);
    assert(back.tunnels =~= state.tunnels);
    assert(back.revoked =~= state.revoked);
    assert(back =~= state);
}

/// A client without the secret is told nothing of the tunnels.
pub proof fn law_wrong_token_learns_nothing(state: StateView, prelude: PreludeView)
    requires
        prelude.token != encode_utf8(state.secret),
    ensures
        state.lookup(prelude) is BadToken,
{
}

/// A tunnel lives as long as its client: when the client leaves, the tunnel is gone, its
/// subdomain is free, and no client can come to it again.
pub proof fn law_tunnel_ends_with_its_client(state: StateView, h: HandleView)
    requires
        state.taken(h.subdomain),
        state.tunnels[h.subdomain].tunnel_id == h.tunnel_id,
        state.departure(h).1,
    ensures
        ({
            let after = state.departure(h).0;
            &&& !after.taken(h.subdomain)
            &&& after.found(h.tunnel_id@) is None
            &&& after.reached(h.subdomain) == Reached::Nobody
            &&& after.lookup(
                PreludeView { tunnel_id: h.tunnel_id@, token: encode_utf8(state.secret) },
            ) is NoSuchTunnel
        }),
{
}

/// A client that leaves takes no tunnel but its own, not even one that has its subdomain.
pub proof fn law_leaving_client_spares_others(state: StateView, h: HandleView, sub: Seq<char>)
    requires
        state.taken(sub),
        state.tunnels[sub].tunnel_id@ != h.tunnel_id@,
    ensures
        state.departure(h).0.taken(sub),
        state.tunnels[sub].serial != h.serial ==> state.departure(h).0.tunnels[sub]
            == state.tunnels[sub],
{
}

/// A deleted tunnel is gone: its id leads nowhere and its subdomain is free.
pub proof fn law_deleted_tunnel_is_gone(state: StateView, id: Seq<u8>)
    ensures
        state.deletion(id).0.found(id) is None,
        state.found(id) matches Some(sub) ==> !state.deletion(id).0.taken(sub),
        state.deletion(id).1 == bare_reply(204) <==> state.by_id.contains_key(id),
{
}

/// A tunnel can be made and deleted again: the tunnels that were there before are there after,
/// and so are the places that are still kept.
pub proof fn law_deletion_undoes_creation(state: StateView, sub: Seq<char>, id: TunnelId, now: u64)
    requires
        state.creation(sub, id, now).1 is Ok,
        !state.by_id.contains_key(id@),
        !state.revoked.contains_key(state.made),
    ensures
        state.creation(sub, id, now).0.deletion(id@).0 == (StateView {
            made: following(state.made),
            ..state
        }),
{
    let back = state.creation(sub, id, now).0.deletion(id@).0;
    assert(back.tunnels =~= state.tunnels);
    assert(back.by_id =~= state.by_id);
    assert(back.revoked =~= state.revoked);
}

/// A deleted tunnel's client is let go: once that is done, nobody is reached through the tunnel.
/// It cannot be done only while a client is being let in.
pub proof fn law_released_tunnel_reaches_nobody(state: StateView, h: HandleView)
    ensures
        state.release(h).1 <==> state.reached_at(h) != Reached::Busy,
        state.release(h).1 ==> state.release(h).0.reached_at(h) == Reached::Nobody,
{
}

/// Reaping takes no tunnel that has a client, that is letting one in, or that has not waited
/// for longer than it may.
pub proof fn law_reaper_spares(state: StateView, sub: Seq<char>, now: u64)
    requires
        state.tunnels.contains_key(sub),
        state.tunnels[sub].sender != Slot::Vacant || now - state.tunnels[sub].created_at
            <= ATTACH_DEADLINE,
    ensures
        state.reaped(now).tunnels.contains_key(sub),
        state.reaped(now).tunnels[sub] == state.tunnels[sub],
{
}

/// After reaping, no tunnel waits any longer than it may.
pub proof fn law_reaper_leaves_nothing_stale(state: StateView, sub: Seq<char>, now: u64)
    ensures
        state.reaped(now).tunnels.contains_key(sub) ==> !stale(
            state.reaped(now).tunnels[sub],
            now,
        ),
        state.reaped(now).reaped(now) == state.reaped(now),
{
    let once = state.reaped(now);
    let twice = once.reaped(now);
    assert(twice.tunnels =~= once.tunnels);
    assert forall|id: Seq<u8>| !once.stale_id(id, now) by {
        if once.stale_id(id, now) {
            let s = choose|s: Seq<char>| #[trigger]
                once.tunnels.contains_key(s) && stale(once.tunnels[s], now)
                    && once.tunnels[s].tunnel_id@ == id;
            assert(state.tunnels.contains_key(s));
        }
    }
    assert(twice.by_id =~= once.by_id);
    assert(twice =~= once);
}

/// The address that a client is told leads back to its tunnel: a request whose host is the
/// subdomain in front of the apex, in any case, with or without a port, is for that tunnel.
pub proof fn law_public_host_leads_to_the_tunnel(
    state: StateView,
    headers: Map<Seq<char>, Seq<Seq<u8>>>,
    sub: Seq<char>,
    host: Seq<char>,
    port: Seq<char>,
)
    requires
        ascii_lower(host) == ascii_lower(sub + (seq!['.'] + state.domain)),
        first_text(headers, "host"@) == Some(host) || first_text(headers, "host"@) == Some(
            host + (seq![':'] + port),
        ),
        sub.len() > 0,
        !sub.contains('.'),
        !sub.contains(':'),
        ascii_lower(sub) == sub,
        !state.domain.contains(':'),
    ensures
        is_ascii_chars(state.domain),
        state.ascii_route(headers) == HostRouteView::Proxy(sub),
{
    let full = sub + (seq!['.'] + state.domain);
    let lower = sub + (seq!['.'] + ascii_lower(state.domain));
    assert(ascii_lower(full) =~= lower);
    assert forall|i: int| 0 <= i < host.len() implies #[trigger] host[i] != ':' by {
        assert(ascii_lower(host)[i] == ascii_lower(full)[i]);
        assert(full[i] != ':') by {
            if i < sub.len() {
                assert(full[i] == sub[i]);
            } else if i > sub.len() {
                assert(full[i] == state.domain[i - sub.len() - 1]);
            }
        }
        assert(lower_char(host[i]) == lower_char(full[i]));
    }
    let text = first_text(headers, "host"@)->0;
    lemma_first_from(text, ':', 0);
    let at = first_from(text, ':', 0);
    assert forall|j: int| 0 <= j < host.len() implies #[trigger] text[j] != ':' by {
        assert(text[j] == host[j]);
    }
    if text.len() > host.len() {
        assert(text[host.len() as int] == ':');
    }
    assert(at == host.len());
    assert(text.take(at) =~= host);
    assert(StateView::host_asked(headers) == host);
    law_label_leads_to_its_tunnel(sub, ascii_lower(state.domain));
    lemma_value_text_is_ascii(headers, "host"@);
    assert forall|j: int| 0 <= j < state.domain.len() implies '\0' <= #[trigger] state.domain[j]
        <= '\x7f' by {
        let i = sub.len() + 1 + j;
        assert(full[i] == state.domain[j]);
        assert(ascii_lower(host)[i] == ascii_lower(full)[i]);
        assert(lower_char(host[i]) == lower_char(full[i]));
        assert(text[i] == host[i]);
    }
}

/// Whether two states have the same secret, apex and addresses.
pub open spec fn same_settings(one: StateView, other: StateView) -> bool {
    &&& one.secret == other.secret
    &&& one.domain == other.domain
    &&& one.public_base == other.public_base
    &&& one.data_public == other.data_public
}

/// Whatever happens, the server keeps its secret, its apex and its addresses, and counts nothing
/// but the tunnels that are made.
pub proof fn law_settings_never_change(
    state: StateView,
    headers: Map<Seq<char>, Seq<Seq<u8>>>,
    candidates: Seq<Seq<char>>,
    sub: Seq<char>,
    id: TunnelId,
    now: u64,
    h: HandleView,
    attached: bool,
)
    ensures
        same_settings(state.creation(sub, id, now).0, state),
        same_settings(state.creation_asked(headers, candidates, id, now).0, state),
        same_settings(state.deletion(id@).0, state) && state.deletion(id@).0.made == state.made,
        same_settings(state.reaped(now), state) && state.reaped(now).made == state.made,
        same_settings(state.admission(h).0, state) && state.admission(h).0.made == state.made,
        same_settings(state.settled(h, attached), state) && state.settled(h, attached).made
            == state.made,
        same_settings(state.release(h).0, state) && state.release(h).0.made == state.made,
        same_settings(state.departure(h).0, state) && state.departure(h).0.made == state.made,
{
}

/// A tunnel's public address is the scheme of the server's own, its subdomain, a dot and the apex.
/// The scheme is what stands in front of the first `://`, and `https` if there is none.
pub proof fn law_public_address(
    state: StateView,
    sub: Seq<char>,
    scheme: Seq<char>,
    rest: Seq<char>,
)
    ensures
        state.public_base == scheme + "://"@ + rest && (forall|j: int|
            0 <= j < scheme.len() ==> !#[trigger] occurs_at(state.public_base, "://"@, j))
            ==> state.public_url(sub) == scheme + "://"@ + sub + "."@ + state.domain,
        (forall|j: int| 0 <= j ==> !#[trigger] occurs_at(state.public_base, "://"@, j))
            ==> state.public_url(sub) == "https"@ + "://"@ + sub + "."@ + state.domain,
{
    let base = state.public_base;
    law_found_at_its_first_occurrence(base, "://"@, 0);
    if base == scheme + "://"@ + rest && (forall|j: int|
        0 <= j < scheme.len() ==> !#[trigger] occurs_at(base, "://"@, j)) {
        let n = scheme.len() as int;
        assert(base.subrange(n, n + "://"@.len() as int) =~= "://"@);
        assert(occurs_at(base, "://"@, n));
        assert(find_from(base, "://"@, 0) == Some(n));
        assert(base.take(n) =~= scheme);
    }
}

/// What making a tunnel does, in full. It is refused for a subdomain in use, and else for 1024
/// tunnels, and for nothing else. A tunnel that is made stands in both tables, vacant, with its
/// time and a new serial number; everything else stays as it was.
pub proof fn law_creation_in_full(state: StateView, sub: Seq<char>, id: TunnelId, now: u64)
    ensures
        ({
            let (after, answer) = state.creation(sub, id, now);
            &&& answer is Err ==> after == state && answer->Err_0.headers.len() == 0
            &&& state.tunnels.contains_key(sub) ==> {
                &&& answer is Err && answer->Err_0.status == 409
                &&& answer->Err_0.body == Some("could not allocate subdomain"@)
            }
            &&& !state.tunnels.contains_key(sub) && state.tunnels.dom().len() >= 1024 ==> {
                &&& answer is Err && answer->Err_0.status == 503
                &&& answer->Err_0.body == Some("too many tunnels"@)
            }
            &&& !state.tunnels.contains_key(sub) && state.tunnels.dom().len() < 1024 ==> {
                &&& answer is Ok
                &&& answer->Ok_0.tunnel_id == id
                &&& answer->Ok_0.subdomain == sub
                &&& answer->Ok_0.public_url == state.public_url(sub)
                &&& answer->Ok_0.connect_addr == state.data_public
                &&& after.tunnels == state.tunnels.insert(
                    sub,
                    TunnelHandle {
                        tunnel_id: id,
                        serial: state.made,
                        sender: Slot::Vacant,
                        created_at: now,
                    },
                )
                &&& after.by_id == state.by_id.insert(id@, sub)
                &&& after.revoked == state.revoked
                &&& state.made < u64::MAX ==> after.made == state.made + 1
            }
        }),
{
}

/// A request to make a tunnel is refused with 404 without the right token, and with 409 if every
/// candidate that is looked at is in use; either way nothing changes. With the right token it is
/// the candidates that count.
pub proof fn law_creation_refused(
    state: StateView,
    headers: Map<Seq<char>, Seq<Seq<u8>>>,
    candidates: Seq<Seq<char>>,
    id: TunnelId,
    now: u64,
)
    ensures
        !authorized(headers, state.secret) ==> {
            let (after, answer) = state.creation_asked(headers, candidates, id, now);
            &&& after == state
            &&& answer is Err && answer->Err_0.status == 404
            &&& answer->Err_0.body == Some("Not Found"@)
        },
        authorized(headers, state.secret) ==> state.creation_asked(headers, candidates, id, now)
            == state.creation_from(candidates, id, now),
        (forall|i: int|
            0 <= i < candidates.len() && i < 9 ==> state.tunnels.contains_key(
                #[trigger] candidates[i],
            )) ==> {
            let (after, answer) = state.creation_from(candidates, id, now);
            &&& after == state
            &&& answer is Err && answer->Err_0.status == 409
            &&& answer->Err_0.body == Some("could not allocate subdomain"@)
        },
{
    if forall|i: int|
        0 <= i < candidates.len() && i < 9 ==> state.tunnels.contains_key(#[trigger] candidates[i]) {
        lemma_none_free(state, candidates, 0);
    }
}

/// No free candidate is found where there is none.
proof fn lemma_none_free(state: StateView, candidates: Seq<Seq<char>>, from: int)
    requires
        0 <= from,
        forall|i: int|
            0 <= i < candidates.len() && i < MAX_DRAWS ==> state.taken(#[trigger] candidates[i]),
    ensures
        state.first_free(candidates, from) is None,
    decreases candidates.len() - from,
{
    if from < candidates.len() && from < MAX_DRAWS {
        assert(state.taken(candidates[from]));
        lemma_none_free(state, candidates, from + 1);
    }
}

/// Nine candidates are drawn, and each is a subdomain of the list.
pub proof fn law_candidates_are_subdomains(
    words: Seq<Seq<char>>,
    candidates: Seq<Seq<char>>,
    i: int,
)
    requires
        drawn(words, candidates),
        0 <= i < 9,
    ensures
        candidates.len() == 9,
        is_subdomain(words, candidates[i]),
{
}

/// What a client's prelude finds: the tunnel with that id, if the token is the secret, and that
/// there is none only where there is none.
pub proof fn law_prelude_finds_its_tunnel(state: StateView, prelude: PreludeView)
    ensures
        ({
            let known = state.by_id.contains_key(prelude.tunnel_id) && state.tunnels.contains_key(
                state.by_id[prelude.tunnel_id],
            );
            let sub = state.by_id[prelude.tunnel_id];
            &&& state.lookup(prelude) is BadToken <==> prelude.token != encode_utf8(state.secret)
            &&& state.lookup(prelude) is NoSuchTunnel <==> prelude.token == encode_utf8(
                state.secret,
            ) && !known
            &&& prelude.token == encode_utf8(state.secret) && known ==> state.lookup(prelude)
                == LookupView::Found(
                HandleView {
                    subdomain: sub,
                    tunnel_id: state.tunnels[sub].tunnel_id,
                    serial: state.tunnels[sub].serial,
                },
            )
        }),
{
}

/// A tunnel's place is what its record says while it is in the tables, what is kept of it after
/// that, and vacant otherwise.
pub proof fn law_where_a_place_is_kept(state: StateView, h: HandleView)
    ensures
        ({
            let standing = state.tunnels.contains_key(h.subdomain)
                && state.tunnels[h.subdomain].serial == h.serial;
            &&& standing ==> state.slot(h) == state.tunnels[h.subdomain].sender
            &&& !standing && state.revoked.contains_key(h.serial) ==> state.slot(h)
                == state.revoked[h.serial]
            &&& !standing && !state.revoked.contains_key(h.serial) ==> state.slot(h)
                == Slot::Vacant
        }),
{
}

/// What happens at a tunnel's place depends on the place alone. A client comes in exactly if it
/// is vacant, has to wait exactly if it is held, and is refused exactly if another is there. One
/// that comes in holds the place, and then has it or leaves it vacant. Requests reach a client
/// exactly if it is there. Nobody is let go, and nobody leaves, exactly while the place is held.
pub proof fn law_the_place_decides(state: StateView, h: HandleView, attached: bool)
    ensures
        state.admission(h).1 == Admission::Admitted <==> state.slot(h) == Slot::Vacant,
        state.admission(h).1 == Admission::Busy <==> state.slot(h) == Slot::Held,
        state.admission(h).1 == Admission::AlreadyAttached <==> state.slot(h) == Slot::Attached,
        state.slot(h) == Slot::Vacant ==> state.admission(h).0.slot(h) == Slot::Held,
        state.slot(h) != Slot::Vacant ==> state.admission(h).0 == state,
        state.slot(h) == Slot::Held && attached ==> state.settled(h, attached).slot(h)
            == Slot::Attached,
        state.slot(h) == Slot::Held && !attached ==> state.settled(h, attached).slot(h)
            == Slot::Vacant,
        state.slot(h) != Slot::Held ==> state.settled(h, attached) == state,
        state.reached_at(h) == Reached::Nobody <==> state.slot(h) == Slot::Vacant,
        state.reached_at(h) == Reached::Busy <==> state.slot(h) == Slot::Held,
        state.reached_at(h) == Reached::Client(h.serial) <==> state.slot(h) == Slot::Attached,
        state.release(h).1 <==> state.slot(h) != Slot::Held,
        state.release(h).1 ==> state.release(h).0.slot(h) == Slot::Vacant,
        !state.release(h).1 ==> state.release(h).0 == state,
        state.departure(h).1 <==> state.slot(h) != Slot::Held,
        state.departure(h).1 ==> state.departure(h).0.slot(h) == Slot::Vacant,
        !state.departure(h).1 ==> state.departure(h).0 == state,
{
}

/// Requests to a subdomain reach whom its tunnel reaches, and nobody where there is none.
pub proof fn law_subdomain_reaches_its_tunnel(state: StateView, sub: Seq<char>)
    ensures
        !state.tunnels.contains_key(sub) ==> state.reached(sub) == Reached::Nobody,
        state.tunnels.contains_key(sub) ==> state.reached(sub) == match state.tunnels[sub].sender {
            Slot::Vacant => Reached::Nobody,
            Slot::Held => Reached::Busy,
            Slot::Attached => Reached::Client(state.tunnels[sub].serial),
        },
        state.tunnels.contains_key(sub) ==> state.handle(sub) == (HandleView {
            subdomain: sub,
            tunnel_id: state.tunnels[sub].tunnel_id,
            serial: state.tunnels[sub].serial,
        }),
{
}

/// Whether two states have the same tunnels, but for who is in the one of `h`.
pub open spec fn same_but_for(one: StateView, other: StateView, h: HandleView) -> bool {
    &&& one.by_id == other.by_id
    &&& one.tunnels.dom() == other.tunnels.dom()
    &&& forall|sub: Seq<char>| #[trigger]
        one.tunnels.contains_key(sub) ==> {
            &&& one.tunnels[sub].tunnel_id == other.tunnels[sub].tunnel_id
            &&& one.tunnels[sub].serial == other.tunnels[sub].serial
            &&& one.tunnels[sub].created_at == other.tunnels[sub].created_at
            &&& sub != h.subdomain ==> one.tunnels[sub] == other.tunnels[sub]
        }
    &&& forall|n: u64| #![trigger one.revoked.contains_key(n)]
        n != h.serial ==> (one.revoked.contains_key(n) <==> other.revoked.contains_key(n)) && (
        one.revoked.contains_key(n) ==> one.revoked[n] == other.revoked[n])
}

/// Letting a client in, settling it and letting it go change nothing but the tunnel's place.
pub proof fn law_only_the_place_changes(state: StateView, h: HandleView, attached: bool)
    ensures
        same_but_for(state.admission(h).0, state, h),
        same_but_for(state.settled(h, attached), state, h),
        same_but_for(state.release(h).0, state, h),
{
    assert forall|slot: Slot| same_but_for(#[trigger] state.with_slot(h, slot), state, h) by {
        assert(state.with_slot(h, slot).tunnels.dom() =~= state.tunnels.dom());
    }
    assert(same_but_for(state.with_slot(h, Slot::Held), state, h));
    assert(same_but_for(state.with_slot(h, Slot::Attached), state, h));
    assert(same_but_for(state.with_slot(h, Slot::Vacant), state, h));
}

/// What a client that leaves takes with it, in full: the id, and the record under its subdomain if
/// it has that id; no other tunnel.
pub proof fn law_departure_in_full(state: StateView, h: HandleView)
    requires
        state.slot(h) != Slot::Held,
    ensures
        ({
            let after = state.departure(h).0;
            let own = state.tunnels.contains_key(h.subdomain)
                && state.tunnels[h.subdomain].tunnel_id@ == h.tunnel_id@;
            &&& after.by_id == state.by_id.remove(h.tunnel_id@)
            &&& own ==> after.tunnels == state.tunnels.remove(h.subdomain)
            &&& !own && !state.stands(h) ==> after.tunnels == state.tunnels
            &&& after.slot(h) == Slot::Vacant
        }),
{
    let after = state.departure(h).0;
    if state.tunnels.contains_key(h.subdomain) && state.tunnels[h.subdomain].tunnel_id@
        == h.tunnel_id@ {
        assert(after.tunnels =~= state.tunnels.remove(h.subdomain));
    }
}

/// What deleting does, in full: the id and the tunnel under it go, and the tunnel's place is kept
/// as it was; an id that leads nowhere changes nothing. The answers are 204 and 404, without text.
pub proof fn law_deletion_in_full(state: StateView, id: Seq<u8>)
    ensures
        ({
            let (after, reply) = state.deletion(id);
            let sub = state.by_id[id];
            &&& reply.headers.len() == 0 && reply.body is None
            &&& !state.by_id.contains_key(id) ==> after == state && reply.status == 404
            &&& state.by_id.contains_key(id) ==> {
                &&& reply.status == 204
                &&& after.by_id == state.by_id.remove(id)
                &&& after.tunnels == state.tunnels.remove(sub)
                &&& state.tunnels.contains_key(sub) ==> after.slot(state.handle(sub))
                    == state.tunnels[sub].sender
            }
        }),
        state.found(id) is Some <==> state.by_id.contains_key(id) && state.tunnels.contains_key(
            state.by_id[id],
        ),
        state.found(id) is Some ==> state.found(id) == Some(state.by_id[id]),
{
    assert(!state.tunnels.contains_key(state.by_id[id]) ==> state.tunnels.remove(state.by_id[id])
        =~= state.tunnels);
}

/// What reaping does, in full: a tunnel goes exactly if it is vacant and was made more than sixty
/// seconds ago, and an id goes exactly if such a tunnel has it; all else stays as it was.
pub proof fn law_reaping_in_full(state: StateView, now: u64, sub: Seq<char>, id: Seq<u8>)
    ensures
        ({
            let after = state.reaped(now);
            &&& after.tunnels.contains_key(sub) <==> state.tunnels.contains_key(sub) && !(
            state.tunnels[sub].sender == Slot::Vacant && now - state.tunnels[sub].created_at
                > 60_000_000_000)
            &&& after.tunnels.contains_key(sub) ==> after.tunnels[sub] == state.tunnels[sub]
            &&& after.by_id.contains_key(id) <==> state.by_id.contains_key(id) && !(exists|
                s: Seq<char>,
            | #[trigger]
                state.tunnels.contains_key(s) && state.tunnels[s].sender == Slot::Vacant && now
                    - state.tunnels[s].created_at > 60_000_000_000 && state.tunnels[s].tunnel_id@
                    == id)
            &&& after.by_id.contains_key(id) ==> after.by_id[id] == state.by_id[id]
            &&& after.revoked == state.revoked
        }),
{
    if state.stale_id(id, now) {
        let s = choose|s: Seq<char>| #[trigger]
            state.tunnels.contains_key(s) && stale(state.tunnels[s], now)
                && state.tunnels[s].tunnel_id@ == id;
        assert(state.tunnels.contains_key(s));
    }
}

/// What a listing holds is a tunnel, with its id and its public address, and each only once.
pub proof fn law_listing_in_full(state: StateView, items: Seq<ListItem>, i: int)
    requires
        state.listed(items),
        0 <= i < items.len(),
    ensures
        state.tunnels.contains_key(items[i].subdomain@),
        items[i].tunnel_id == state.tunnels[items[i].subdomain@].tunnel_id,
        items[i].public_url@ == state.public_url(items[i].subdomain@),
        forall|j: int|
            0 <= j < items.len() && j != i ==> (#[trigger] items[j]).subdomain@
                != items[i].subdomain@,
{
    assert(state.lists(items[i]));
}

/// A listing leaves no tunnel out.
pub proof fn law_listing_leaves_none_out(state: StateView, items: Seq<ListItem>, sub: Seq<char>)
    requires
        state.listed(items),
        state.tunnels.contains_key(sub),
    ensures
        exists|j: int| 0 <= j < items.len() && (#[trigger] items[j]).subdomain@ == sub,
{
}

/// The host that a request asks for is its `host` header's text up to the first colon, and nothing
/// if it has no such text; where it goes is decided by that, in lower case, and the apex.
pub proof fn law_host_header_decides(
    state: StateView,
    headers: Map<Seq<char>, Seq<Seq<u8>>>,
    host: Seq<char>,
    port: Seq<char>,
)
    requires
        !host.contains(':'),
    ensures
        ({
            let text = first_text(headers, "host"@);
            &&& text == Some(host) || text == Some(host + (seq![':'] + port)) ==> {
                &&& state.route(headers) == host_route(
                    lowercase_of(host),
                    lowercase_of(state.domain),
                )
                &&& state.ascii_route(headers) == host_route(
                    ascii_lower(host),
                    ascii_lower(state.domain),
                )
            }
            &&& text is None ==> state.route(headers) == host_route(
                lowercase_of(Seq::empty()),
                lowercase_of(state.domain),
            )
        }),
{
    if first_text(headers, "host"@) is Some {
        let text = first_text(headers, "host"@)->0;
        if text == host || text == host + (seq![':'] + port) {
            lemma_first_from(text, ':', 0);
            let at = first_from(text, ':', 0);
            if at < host.len() {
                assert(text[at] == host[at]);
                assert(host.contains(host[at]));
            }
            if text.len() > host.len() {
                assert(text[host.len() as int] == ':');
            }
            assert(text.take(at) =~= host);
        }
    }
}

/// The numbers of the tunnels go up by one.
pub proof fn law_numbers_go_up(n: u64)
    ensures
        n < u64::MAX ==> following(n) == n + 1,
        n == u64::MAX ==> following(n) == 0,
{
}

} // verus!
