//! A client's connection to the data plane, from its first byte to its last.

use vstd::prelude::*;
use vstd::utf8::encode_utf8;

use crate::client::{
    client_step, introduction, ArgsView, ClientActionView, ClientEventView, ClientPhase, Stop,
};
use crate::proto::{
    law_prelude_on_the_wire, law_read_gives_back_what_was_written, read_outcome, Prelude, PreludeView, ReadOutcome,
    TunnelId, MAX_TOKEN_LEN,
};
use crate::state::{
    Admission, AppState, Handle, HandleView, Lookup, LookupView, Reached, Slot, StateView,
};

verus! {

/// Where a connection stands.
pub enum ConnPhase {
    /// Its TLS handshake is under way.
    Accepting,
    /// Its prelude is being read.
    Reading,
    /// It waits for its turn at the place of the tunnel that it found.
    Waiting(Handle),
    /// It has been told that it may come in.
    Replying(Handle),
    /// Its HTTP/2 handshake is under way.
    Handshaking(Handle),
    /// It is the tunnel's client.
    Driving(Handle),
    /// It has ended, and waits for its turn at the tunnel's place to leave it.
    Leaving(Handle),
    /// It is over.
    Closed,
}

/// [`ConnPhase`] over plain values.
pub enum ConnPhaseView {
    Accepting,
    Reading,
    Waiting(HandleView),
    Replying(HandleView),
    Handshaking(HandleView),
    Driving(HandleView),
    Leaving(HandleView),
    Closed,
}

impl View for ConnPhase {
    type V = ConnPhaseView;

    open spec fn view(&self) -> ConnPhaseView {
        match *self {
            ConnPhase::Accepting => ConnPhaseView::Accepting,
            ConnPhase::Reading => ConnPhaseView::Reading,
            ConnPhase::Waiting(h) => ConnPhaseView::Waiting(h@),
            ConnPhase::Replying(h) => ConnPhaseView::Replying(h@),
            ConnPhase::Handshaking(h) => ConnPhaseView::Handshaking(h@),
            ConnPhase::Driving(h) => ConnPhaseView::Driving(h@),
            ConnPhase::Leaving(h) => ConnPhaseView::Leaving(h@),
            ConnPhase::Closed => ConnPhaseView::Closed,
        }
    }
}

/// What happened to a connection since the last action.
pub enum ConnEvent {
    /// The TLS handshake was made, or failed or took too long.
    Tls(bool),
    /// The prelude was read.
    Prelude(Prelude),
    /// The prelude could not be read, or took too long.
    PreludeFailed,
    /// It is the connection's turn at the tunnel's place.
    Turn,
    /// The reply was sent, or could not be.
    ReplySent(bool),
    /// The HTTP/2 handshake was made, or failed.
    Handshake(bool),
    /// The connection ended.
    Ended,
}

/// [`ConnEvent`] over plain values.
pub enum ConnEventView {
    Tls(bool),
    Prelude(PreludeView),
    PreludeFailed,
    Turn,
    ReplySent(bool),
    Handshake(bool),
    Ended,
}

impl View for ConnEvent {
    type V = ConnEventView;

    open spec fn view(&self) -> ConnEventView {
        match *self {
            ConnEvent::Tls(ok) => ConnEventView::Tls(ok),
            ConnEvent::Prelude(p) => ConnEventView::Prelude(p@),
            ConnEvent::PreludeFailed => ConnEventView::PreludeFailed,
            ConnEvent::Turn => ConnEventView::Turn,
            ConnEvent::ReplySent(ok) => ConnEventView::ReplySent(ok),
            ConnEvent::Handshake(ok) => ConnEventView::Handshake(ok),
            ConnEvent::Ended => ConnEventView::Ended,
        }
    }
}

/// Why a connection is turned away.
#[derive(Debug, Copy, Clone, PartialEq, Eq, Structural)]
pub enum Refusal {
    /// It did not say a good prelude in time.
    BadPrelude,
    /// Its token is not the secret.
    BadToken,
    /// There is no tunnel with the id that it names.
    NoSuchTunnel,
    /// The tunnel has a client already.
    AlreadyAttached,
}

/// What to do with a connection next.
#[derive(Debug, Copy, Clone)]
pub enum ConnAction {
    /// Read its prelude.
    ReadPrelude,
    /// Wait for its turn at the place of the tunnel with this serial number: no other client
    /// is being let in then.
    AwaitSlot(u64),
    /// Tell it that it may come in.
    ReplyAccept,
    /// Make the HTTP/2 handshake.
    Handshake,
    /// Drive it to its end, as the client of the tunnel with this serial number.
    Drive(u64),
    /// Tell it that it is refused, and close it.
    Reject(Refusal),
    /// Close it.
    Close,
}

/// What a prelude leads to. A client that found its tunnel waits for its turn, though it may
/// come at once.
pub open spec fn introduced(lookup: LookupView) -> (ConnPhaseView, ConnAction) {
    match lookup {
        LookupView::BadToken => (ConnPhaseView::Closed, ConnAction::Reject(Refusal::BadToken)),
        LookupView::NoSuchTunnel => (
            ConnPhaseView::Closed,
            ConnAction::Reject(Refusal::NoSuchTunnel),
        ),
        LookupView::Found(h) => (ConnPhaseView::Waiting(h), ConnAction::AwaitSlot(h.serial)),
    }
}

/// What a turn at a tunnel's place leads to.
pub open spec fn answered(h: HandleView, admission: Admission) -> (ConnPhaseView, ConnAction) {
    match admission {
        Admission::AlreadyAttached => (
            ConnPhaseView::Closed,
            ConnAction::Reject(Refusal::AlreadyAttached),
        ),
        Admission::Busy => (ConnPhaseView::Waiting(h), ConnAction::AwaitSlot(h.serial)),
        Admission::Admitted => (ConnPhaseView::Replying(h), ConnAction::ReplyAccept),
    }
}

impl ConnPhaseView {
    /// Whether `event` can follow the last action.
    pub open spec fn expects(self, event: ConnEventView) -> bool {
        match self {
            ConnPhaseView::Accepting => event is Tls,
            ConnPhaseView::Reading => event is Prelude || event is PreludeFailed,
            ConnPhaseView::Waiting(_) => event is Turn,
            ConnPhaseView::Replying(_) => event is ReplySent,
            ConnPhaseView::Handshaking(_) => event is Handshake,
            ConnPhaseView::Driving(_) => event is Ended,
            ConnPhaseView::Leaving(_) => event is Turn,
            ConnPhaseView::Closed => false,
        }
    }

    /// What `event` does to the connection and to the server, and what to do next.
    pub open spec fn step(self, state: StateView, event: ConnEventView) -> (
        ConnPhaseView,
        StateView,
        ConnAction,
    ) {
        match (self, event) {
            (ConnPhaseView::Accepting, ConnEventView::Tls(true)) => (
                ConnPhaseView::Reading,
                state,
                ConnAction::ReadPrelude,
            ),
            (ConnPhaseView::Reading, ConnEventView::Prelude(p)) => {
                let (phase, action) = introduced(state.lookup(p));
                (phase, state, action)
            },
            (ConnPhaseView::Reading, ConnEventView::PreludeFailed) => (
                ConnPhaseView::Closed,
                state,
                ConnAction::Reject(Refusal::BadPrelude),
            ),
            (ConnPhaseView::Waiting(h), ConnEventView::Turn) => {
                let (after, admission) = state.admission(h);
                let (phase, action) = answered(h, admission);
                (phase, after, action)
            },
            (ConnPhaseView::Replying(h), ConnEventView::ReplySent(ok)) => if ok {
                (ConnPhaseView::Handshaking(h), state, ConnAction::Handshake)
            } else {
                (ConnPhaseView::Closed, state.settled(h, false), ConnAction::Close)
            },
            (ConnPhaseView::Handshaking(h), ConnEventView::Handshake(ok)) => if ok {
                (ConnPhaseView::Driving(h), state.settled(h, true), ConnAction::Drive(h.serial))
            } else {
                (ConnPhaseView::Closed, state.settled(h, false), ConnAction::Close)
            },
            (ConnPhaseView::Driving(h), ConnEventView::Ended) => (
                ConnPhaseView::Leaving(h),
                state,
                ConnAction::AwaitSlot(h.serial),
            ),
            (ConnPhaseView::Leaving(h), ConnEventView::Turn) => {
                let (after, gone) = state.departure(h);
                if gone {
                    (ConnPhaseView::Closed, after, ConnAction::Close)
                } else {
                    (ConnPhaseView::Leaving(h), after, ConnAction::AwaitSlot(h.serial))
                }
            },
            _ => (ConnPhaseView::Closed, state, ConnAction::Close),
        }
    }
}

/// Decides what to do next with a client's connection, and keeps the server's record of it.
pub fn handle_data_conn(phase: ConnPhase, state: &mut AppState, event: ConnEvent) -> (r: (
    ConnPhase,
    ConnAction,
))
    requires
        phase@.expects(event@),
    ensures
        (r.0@, final(state)@, r.1) == phase@.step(old(state)@, event@),
{
    match (phase, event) {
        (ConnPhase::Accepting, ConnEvent::Tls(ok)) => if ok {
            (ConnPhase::Reading, ConnAction::ReadPrelude)
        } else {
            (ConnPhase::Closed, ConnAction::Close)
        },
        (ConnPhase::Reading, ConnEvent::Prelude(p)) => match state.find(&p) {
            Lookup::BadToken => (ConnPhase::Closed, ConnAction::Reject(Refusal::BadToken)),
            Lookup::NoSuchTunnel => (ConnPhase::Closed, ConnAction::Reject(Refusal::NoSuchTunnel)),
            Lookup::Found(h) => {
                let serial: u64 = h.serial;
                (ConnPhase::Waiting(h), ConnAction::AwaitSlot(serial))
            },
        },
        (ConnPhase::Reading, ConnEvent::PreludeFailed) => (
            ConnPhase::Closed,
            ConnAction::Reject(Refusal::BadPrelude),
        ),
        (ConnPhase::Waiting(h), ConnEvent::Turn) => match state.let_in(&h) {
            Admission::AlreadyAttached => (
                ConnPhase::Closed,
                ConnAction::Reject(Refusal::AlreadyAttached),
            ),
            Admission::Busy => {
                let serial: u64 = h.serial;
                (ConnPhase::Waiting(h), ConnAction::AwaitSlot(serial))
            },
            Admission::Admitted => (ConnPhase::Replying(h), ConnAction::ReplyAccept),
        },
        (ConnPhase::Replying(h), ConnEvent::ReplySent(ok)) => if ok {
            (ConnPhase::Handshaking(h), ConnAction::Handshake)
        } else {
            state.settle(&h, false);
            (ConnPhase::Closed, ConnAction::Close)
        },
        (ConnPhase::Handshaking(h), ConnEvent::Handshake(ok)) => {
            state.settle(&h, ok);
            if ok {
                let serial: u64 = h.serial;
                (ConnPhase::Driving(h), ConnAction::Drive(serial))
            } else {
                (ConnPhase::Closed, ConnAction::Close)
            }
        },
        (ConnPhase::Driving(h), ConnEvent::Ended) => {
            let serial: u64 = h.serial;
            (ConnPhase::Leaving(h), ConnAction::AwaitSlot(serial))
        },
        (ConnPhase::Leaving(h), ConnEvent::Turn) => {
            if state.detach(&h) {
                (ConnPhase::Closed, ConnAction::Close)
            } else {
                let serial: u64 = h.serial;
                (ConnPhase::Leaving(h), ConnAction::AwaitSlot(serial))
            }
        },
        _ => (ConnPhase::Closed, ConnAction::Close),
    }
}

/// A connection that is refused changes nothing.
pub proof fn law_refusal_changes_nothing(
    phase: ConnPhaseView,
    state: StateView,
    event: ConnEventView,
)
    requires
        phase.step(state, event).2 is Reject,
    ensures
        phase.step(state, event).1 == state,
        phase.step(state, event).0 is Closed,
{
}

/// The life of a tunnel and its client: a client that was told of a tunnel sends its prelude,
/// is let in, is reached by the tunnel's requests, and takes the tunnel with it when it leaves.
pub proof fn law_client_of_a_tunnel_gets_in(
    state: StateView,
    sub: Seq<char>,
    id: TunnelId,
    now: u64,
    rest: Seq<u8>,
)
    requires
        state.creation(sub, id, now).1 is Ok,
        encode_utf8(state.secret).len() <= MAX_TOKEN_LEN,
    ensures
        ({
            let prelude = introduction(id, state.secret);
            read_outcome(prelude.encoded() + rest) == ReadOutcome::Complete(prelude)
        }),
        ({
            let prelude = introduction(id, state.secret);
            let serial = state.made;
            let made = state.creation(sub, id, now).0;
            let (reading, s1, a1) = ConnPhaseView::Accepting.step(made, ConnEventView::Tls(true));
            let (waiting, s2, a2) = reading.step(s1, ConnEventView::Prelude(prelude));
            let (replying, s3, a3) = waiting.step(s2, ConnEventView::Turn);
            let (shaking, s4, a4) = replying.step(s3, ConnEventView::ReplySent(true));
            let (driving, s5, a5) = shaking.step(s4, ConnEventView::Handshake(true));
            let (leaving, s6, a6) = driving.step(s5, ConnEventView::Ended);
            let (closed, s7, a7) = leaving.step(s6, ConnEventView::Turn);
            &&& a1 == ConnAction::ReadPrelude
            &&& a2 == ConnAction::AwaitSlot(serial)
            &&& a3 == ConnAction::ReplyAccept
            &&& a4 == ConnAction::Handshake
            &&& a5 == ConnAction::Drive(serial)
            &&& s5.reached(sub) == Reached::Client(serial)
            &&& a6 == ConnAction::AwaitSlot(serial)
            &&& a7 == ConnAction::Close
            &&& !s7.taken(sub)
            &&& s7.found(id@) is None
        }),
{
    law_read_gives_back_what_was_written(introduction(id, state.secret), rest);
}

/// A client that waits keeps to the tunnel that it found, though the tunnel is deleted
/// meanwhile: it is refused if the client before it came in, and comes in if that one failed.
pub proof fn law_waiting_client_keeps_its_tunnel(state: StateView, sub: Seq<char>)
    requires
        state.taken(sub),
        state.slot(state.handle(sub)) is Held,
        state.by_id.contains_key(state.handle(sub).tunnel_id@),
        state.by_id[state.handle(sub).tunnel_id@] == sub,
    ensures
        ({
            let h = state.handle(sub);
            let waiting = ConnPhaseView::Waiting(h);
            let deleted = state.deletion(h.tunnel_id@).0;
            let there = deleted.settled(h, true);
            let failed = deleted.settled(h, false);
            &&& !deleted.taken(sub)
            &&& waiting.step(deleted, ConnEventView::Turn) == (
                waiting,
                deleted,
                ConnAction::AwaitSlot(h.serial),
            )
            &&& waiting.step(there, ConnEventView::Turn).2 == ConnAction::Reject(
                Refusal::AlreadyAttached,
            )
            &&& waiting.step(failed, ConnEventView::Turn).2 == ConnAction::ReplyAccept
        }),
{
}

/// A client that leaves while another is being let in waits for that to be settled: until then
/// nothing changes, and then the other is reached by those who wait, before it is let go.
pub proof fn law_leaving_client_waits(state: StateView, h: HandleView)
    requires
        state.slot(h) is Held,
    ensures
        ({
            let leaving = ConnPhaseView::Leaving(h);
            let there = state.settled(h, true);
            &&& leaving.step(state, ConnEventView::Turn) == (
                leaving,
                state,
                ConnAction::AwaitSlot(h.serial),
            )
            &&& there.reached_at(h) == Reached::Client(h.serial)
            &&& leaving.step(there, ConnEventView::Turn).1.reached_at(h) == Reached::Nobody
            &&& leaving.step(there, ConnEventView::Turn).0 is Closed
        }),
{
}

/// The phase of a connection after a run of events. Other connections and requests may change
/// the server's state between them, so each event comes with the state that it finds.
pub open spec fn phase_after(trace: Seq<(StateView, ConnEventView)>) -> ConnPhaseView
    decreases trace.len(),
{
    if trace.len() == 0 {
        ConnPhaseView::Accepting
    } else {
        phase_after(trace.drop_last()).step(trace.last().0, trace.last().1).0
    }
}

/// Whether the connection said `prelude` at event `k`, and the server found this tunnel for it.
pub open spec fn was_found(
    trace: Seq<(StateView, ConnEventView)>,
    prelude: PreludeView,
    k: int,
    h: HandleView,
) -> bool {
    &&& 0 <= k < trace.len()
    &&& trace[k].1 == ConnEventView::Prelude(prelude)
    &&& trace[k].0.lookup(prelude) == LookupView::Found(h)
}

/// Whether the server let the connection in to this tunnel at event `j`.
pub open spec fn was_let_in(
    trace: Seq<(StateView, ConnEventView)>,
    j: int,
    h: HandleView,
) -> bool {
    &&& 0 <= j < trace.len()
    &&& trace[j].1 == ConnEventView::Turn
    &&& trace[j].0.admission(h).1 == Admission::Admitted
}

/// A connection becomes a tunnel's client only by a prelude that it said, whose token was the
/// server's secret, and after the server let it in to the tunnel that the prelude names.
pub proof fn law_only_the_secret_gets_in(
    trace: Seq<(StateView, ConnEventView)>,
    h: HandleView,
)
    requires
        phase_after(trace) == ConnPhaseView::Driving(h),
    ensures
        exists|prelude: PreludeView, k: int|
            {
                &&& #[trigger] was_found(trace, prelude, k, h)
                &&& prelude.token == encode_utf8(trace[k].0.secret)
            },
        exists|j: int| was_let_in(trace, j, h),
{
    lemma_accounted_for(trace);
    let (prelude, k) = choose|prelude: PreludeView, k: int| was_found(trace, prelude, k, h);
    assert(prelude.token == encode_utf8(trace[k].0.secret));
}

/// Whether the server found this tunnel for the connection.
spec fn found_before(trace: Seq<(StateView, ConnEventView)>, h: HandleView) -> bool {
    exists|prelude: PreludeView, k: int| was_found(trace, prelude, k, h)
}

/// Whether the server let the connection in to this tunnel.
spec fn let_in_before(trace: Seq<(StateView, ConnEventView)>, h: HandleView) -> bool {
    exists|j: int| was_let_in(trace, j, h)
}

/// What a phase tells of the events before it.
spec fn accounted_for(trace: Seq<(StateView, ConnEventView)>, phase: ConnPhaseView) -> bool {
    match phase {
        ConnPhaseView::Waiting(h) => found_before(trace, h),
        ConnPhaseView::Replying(h) => found_before(trace, h) && let_in_before(trace, h),
        ConnPhaseView::Handshaking(h) => found_before(trace, h) && let_in_before(trace, h),
        ConnPhaseView::Driving(h) => found_before(trace, h) && let_in_before(trace, h),
        _ => true,
    }
}

/// Every phase is accounted for by the events before it.
proof fn lemma_accounted_for(trace: Seq<(StateView, ConnEventView)>)
    ensures
        accounted_for(trace, phase_after(trace)),
    decreases trace.len(),
{
    if trace.len() > 0 {
        let before = trace.drop_last();
        let n = trace.len() - 1;
        lemma_accounted_for(before);
        match phase_after(before) {
            ConnPhaseView::Reading => {
                if let ConnEventView::Prelude(p) = trace[n].1 {
                    if let LookupView::Found(h) = trace[n].0.lookup(p) {
                        assert(was_found(trace, p, n, h));
                    }
                }
            },
            ConnPhaseView::Waiting(h) => {
                lemma_still_found(trace, h);
                if phase_after(trace) is Replying {
                    assert(was_let_in(trace, n, h));
                }
            },
            ConnPhaseView::Replying(h) => {
                lemma_still_found(trace, h);
                lemma_still_let_in(trace, h);
            },
            ConnPhaseView::Handshaking(h) => {
                lemma_still_found(trace, h);
                lemma_still_let_in(trace, h);
            },
            _ => {},
        }
    }
}

/// What was found stays so when another event follows.
proof fn lemma_still_found(trace: Seq<(StateView, ConnEventView)>, h: HandleView)
    requires
        trace.len() > 0,
        found_before(trace.drop_last(), h),
    ensures
        found_before(trace, h),
{
    let before = trace.drop_last();
    let (p, k) = choose|p: PreludeView, k: int| was_found(before, p, k, h);
    assert(was_found(trace, p, k, h));
}

/// Who was let in stays so when another event follows.
proof fn lemma_still_let_in(trace: Seq<(StateView, ConnEventView)>, h: HandleView)
    requires
        trace.len() > 0,
        let_in_before(trace.drop_last(), h),
    ensures
        let_in_before(trace, h),
{
    let before = trace.drop_last();
    let j = choose|j: int| was_let_in(before, j, h);
    assert(was_let_in(trace, j, h));
}

/// A connection step by step. A client without TLS is closed. One whose prelude cannot be read,
/// whose token is wrong, whose tunnel does not exist or has a client is refused, each for its own
/// reason; any other waits for the tunnel that it named, comes in when its place is vacant, and
/// goes on with that tunnel. Whoever fails on the way, or ends, is closed.
pub proof fn law_connection_step_by_step(
    state: StateView,
    p: PreludeView,
    h: HandleView,
    ok: bool,
)
    ensures
        ConnPhaseView::Accepting.step(state, ConnEventView::Tls(ok)) == if ok {
            (ConnPhaseView::Reading, state, ConnAction::ReadPrelude)
        } else {
            (ConnPhaseView::Closed, state, ConnAction::Close)
        },
        ConnPhaseView::Reading.step(state, ConnEventView::PreludeFailed) == (
            ConnPhaseView::Closed,
            state,
            ConnAction::Reject(Refusal::BadPrelude),
        ),
        ConnPhaseView::Reading.step(state, ConnEventView::Prelude(p)) == match state.lookup(p) {
            LookupView::BadToken => (
                ConnPhaseView::Closed,
                state,
                ConnAction::Reject(Refusal::BadToken),
            ),
            LookupView::NoSuchTunnel => (
                ConnPhaseView::Closed,
                state,
                ConnAction::Reject(Refusal::NoSuchTunnel),
            ),
            LookupView::Found(f) => (
                ConnPhaseView::Waiting(f),
                state,
                ConnAction::AwaitSlot(f.serial),
            ),
        },
        ConnPhaseView::Waiting(h).step(state, ConnEventView::Turn) == match state.slot(h) {
            Slot::Vacant => (
                ConnPhaseView::Replying(h),
                state.admission(h).0,
                ConnAction::ReplyAccept,
            ),
            Slot::Held => (ConnPhaseView::Waiting(h), state, ConnAction::AwaitSlot(h.serial)),
            Slot::Attached => (
                ConnPhaseView::Closed,
                state,
                ConnAction::Reject(Refusal::AlreadyAttached),
            ),
        },
        ConnPhaseView::Replying(h).step(state, ConnEventView::ReplySent(ok)) == if ok {
            (ConnPhaseView::Handshaking(h), state, ConnAction::Handshake)
        } else {
            (ConnPhaseView::Closed, state.settled(h, false), ConnAction::Close)
        },
        ConnPhaseView::Handshaking(h).step(state, ConnEventView::Handshake(ok)) == if ok {
            (ConnPhaseView::Driving(h), state.settled(h, true), ConnAction::Drive(h.serial))
        } else {
            (ConnPhaseView::Closed, state.settled(h, false), ConnAction::Close)
        },
        ConnPhaseView::Driving(h).step(state, ConnEventView::Ended) == (
            ConnPhaseView::Leaving(h),
            state,
            ConnAction::AwaitSlot(h.serial),
        ),
        ConnPhaseView::Leaving(h).step(state, ConnEventView::Turn) == if state.slot(h)
            == Slot::Held {
            (ConnPhaseView::Leaving(h), state, ConnAction::AwaitSlot(h.serial))
        } else {
            (ConnPhaseView::Closed, state.departure(h).0, ConnAction::Close)
        },
{
}

/// A connection takes every answer to what it asked for.
pub proof fn law_connection_takes_every_answer(
    phase: ConnPhaseView,
    state: StateView,
    event: ConnEventView,
    prelude: PreludeView,
    ok: bool,
)
    ensures
        ConnPhaseView::Accepting.expects(ConnEventView::Tls(ok)),
        phase.expects(event) ==> ({
            let (next, _, action) = phase.step(state, event);
            match action {
                ConnAction::ReadPrelude => {
                    &&& next.expects(ConnEventView::Prelude(prelude))
                    &&& next.expects(ConnEventView::PreludeFailed)
                },
                ConnAction::AwaitSlot(_) => next.expects(ConnEventView::Turn),
                ConnAction::ReplyAccept => next.expects(ConnEventView::ReplySent(ok)),
                ConnAction::Handshake => next.expects(ConnEventView::Handshake(ok)),
                ConnAction::Drive(_) => next.expects(ConnEventView::Ended),
                ConnAction::Reject(_) => next is Closed,
                ConnAction::Close => next is Closed,
            }
        }),
{
}

/// A client introduces itself so that its server finds its tunnel: the bytes that it sends when it
/// is connected are read, whatever follows them, as a prelude with its tunnel's id and the UTF-8
/// bytes of its secret, and a server with that secret and that tunnel finds the tunnel. Only a
/// secret of more than 128 bytes cannot be sent.
pub proof fn law_client_is_found_by_its_server(
    args: ArgsView,
    id: TunnelId,
    state: StateView,
    rest: Seq<u8>,
)
    ensures
        ({
            let (phase, action) = client_step(
                args,
                ClientPhase::Connecting(id),
                ClientEventView::Connected(true),
            );
            let fits = encode_utf8(args.secret).len() <= 128;
            let prelude = PreludeView { tunnel_id: id@, token: encode_utf8(args.secret) };
            &&& !fits ==> action == ClientActionView::Stop(Stop::TokenTooLong)
            &&& fits ==> {
                &&& phase == ClientPhase::Introducing
                &&& action is Send
                &&& read_outcome(action->Send_0 + rest) == ReadOutcome::Complete(prelude)
                &&& action->Send_0.len() == 26 + encode_utf8(args.secret).len()
                &&& state.secret == args.secret && state.by_id.contains_key(id@)
                    && state.tunnels.contains_key(state.by_id[id@]) ==> state.lookup(prelude)
                    == LookupView::Found(state.handle(state.by_id[id@]))
            }
        }),
{
    if encode_utf8(args.secret).len() <= 128 {
        law_read_gives_back_what_was_written(introduction(id, args.secret), rest);
        law_prelude_on_the_wire(introduction(id, args.secret), 0);
    }
}

/// Phases and events are seen by contracts as they are.
pub proof fn law_connections_are_seen_whole(phase: ConnPhase, event: ConnEvent)
    ensures
        match phase {
            ConnPhase::Accepting => phase@ is Accepting,
            ConnPhase::Reading => phase@ is Reading,
            ConnPhase::Waiting(h) => phase@ == ConnPhaseView::Waiting(h@),
            ConnPhase::Replying(h) => phase@ == ConnPhaseView::Replying(h@),
            ConnPhase::Handshaking(h) => phase@ == ConnPhaseView::Handshaking(h@),
            ConnPhase::Driving(h) => phase@ == ConnPhaseView::Driving(h@),
            ConnPhase::Leaving(h) => phase@ == ConnPhaseView::Leaving(h@),
            ConnPhase::Closed => phase@ is Closed,
        },
        match event {
            ConnEvent::Tls(ok) => event@ == ConnEventView::Tls(ok),
            ConnEvent::Prelude(p) => event@ == ConnEventView::Prelude(p@),
            ConnEvent::PreludeFailed => event@ is PreludeFailed,
            ConnEvent::Turn => event@ is Turn,
            ConnEvent::ReplySent(ok) => event@ == ConnEventView::ReplySent(ok),
            ConnEvent::Handshake(ok) => event@ == ConnEventView::Handshake(ok),
            ConnEvent::Ended => event@ is Ended,
        },
{
}

} // verus!
