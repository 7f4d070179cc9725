//! The data plane's own bytes: the prelude that a client opens with, the one-byte
//! answer to it, and the pacing of a body on a flow-controlled stream.

use bytes::Bytes;
use vstd::prelude::*;

use crate::outside::buffers::bytes_of;

verus! {

/// The bytes that every prelude starts with: `TUNNELD` and a zero byte.
pub const MAGIC: [u8; 8] = [0x54, 0x55, 0x4e, 0x4e, 0x45, 0x4c, 0x44, 0x00];

/// The version of the protocol.
pub const VERSION: u8 = 1;

/// The longest token that a prelude carries.
pub const MAX_TOKEN_LEN: usize = 128;

/// The identifier of a tunnel: the sixteen bytes of a UUID.
pub type TunnelId = [u8; 16];

/// The server's answer to a prelude.
#[derive(Debug, Copy, Clone, PartialEq, Eq, Structural)]
pub enum AuthReply {
    Accept,
    Reject,
}

/// Why a prelude could not be written or read.
#[derive(Debug, Copy, Clone, PartialEq, Eq, Structural)]
pub enum PreludeError {
    /// The input ended inside the prelude.
    UnexpectedEof,
    /// The input does not start with [`MAGIC`].
    BadMagic,
    /// The version byte is not [`VERSION`].
    UnsupportedVersion(u8),
    /// The token, of this length, is longer than [`MAX_TOKEN_LEN`].
    TokenTooLong(usize),
}

/// What a client says of itself when it opens the data plane.
pub struct Prelude {
    pub tunnel_id: TunnelId,
    pub token: Vec<u8>,
}

/// A prelude as its two byte sequences.
#[verifier::ext_equal]
pub struct PreludeView {
    pub tunnel_id: Seq<u8>,
    pub token: Seq<u8>,
}

impl View for Prelude {
    type V = PreludeView;

    open spec fn view(&self) -> PreludeView {
        PreludeView { tunnel_id: self.tunnel_id@, token: self.token@ }
    }
}

impl PreludeView {
    /// A tunnel id has sixteen bytes, and the token's length fits its limit.
    pub open spec fn valid(self) -> bool {
        &&& self.tunnel_id.len() == 16
        &&& self.token.len() <= MAX_TOKEN_LEN
    }

    /// The prelude on the wire.
    pub open spec fn encoded(self) -> Seq<u8> {
        MAGIC@ + seq![VERSION] + self.tunnel_id + seq![self.token.len() as u8] + self.token
    }
}

/// What the bytes received so far amount to.
pub enum ReadOutcome {
    /// Every byte so far is good, and the prelude is not complete.
    Incomplete,
    Failed(PreludeError),
    Complete(PreludeView),
}

/// The prelude at the start of `input`.
pub open spec fn read_outcome(input: Seq<u8>) -> ReadOutcome {
    if input.len() < 8 {
        ReadOutcome::Incomplete
    } else if input.take(8) != MAGIC@ {
        ReadOutcome::Failed(PreludeError::BadMagic)
    } else if input.len() < 9 {
        ReadOutcome::Incomplete
    } else if input[8] != VERSION {
        ReadOutcome::Failed(PreludeError::UnsupportedVersion(input[8]))
    } else if input.len() < 26 {
        ReadOutcome::Incomplete
    } else if input[25] > MAX_TOKEN_LEN {
        ReadOutcome::Failed(PreludeError::TokenTooLong(input[25] as usize))
    } else if input.len() < 26 + input[25] {
        ReadOutcome::Incomplete
    } else {
        ReadOutcome::Complete(
            PreludeView {
                tunnel_id: input.subrange(9, 25),
                token: input.subrange(26, 26 + input[25]),
            },
        )
    }
}

/// How many bytes the next read of a prelude asks for, once `received` is there.
pub open spec fn next_read(received: Seq<u8>) -> int {
    if received.len() < 8 {
        8
    } else if received.len() < 9 {
        1
    } else if received.len() < 25 {
        16
    } else if received.len() < 26 {
        1
    } else {
        received[25] as int
    }
}

/// Reading of a prelude stands at the border of one of its fields, and all is good so far.
pub open spec fn at_field(received: Seq<u8>) -> bool {
    &&& !(read_outcome(received) is Failed)
    &&& received.len() == 0 || received.len() == 8 || received.len() == 9 || received.len() == 25
        || received.len() == 26
}

/// A decided prelude stays decided: bytes that follow it change nothing.
pub proof fn law_outcome_is_stable(input: Seq<u8>, more: Seq<u8>)
    requires
        !(read_outcome(input) is Incomplete),
    ensures
        read_outcome(input + more) == read_outcome(input),
{
    let all = input + more;
    assert(all.take(8) =~= input.take(8));
    if read_outcome(input) is Complete {
        assert(all.subrange(9, 25) =~= input.subrange(9, 25));
        assert(all.subrange(26, 26 + input[25]) =~= input.subrange(26, 26 + input[25]));
    }
}

/// What is written is read back, whatever follows it on the stream.
pub proof fn law_read_gives_back_what_was_written(prelude: PreludeView, rest: Seq<u8>)
    requires
        prelude.valid(),
    ensures
        read_outcome(prelude.encoded() + rest) == ReadOutcome::Complete(prelude),
{
    let all = prelude.encoded() + rest;
    let n = prelude.token.len() as int;
    assert(all.take(8) =~= MAGIC@);
    assert(all[8] == VERSION);
    assert(all[25] == n as u8);
    assert(all.subrange(9, 25) =~= prelude.tunnel_id);
    assert(all.subrange(26, 26 + n) =~= prelude.token);
}

/// Only what writing produces is read: the bytes that a prelude was read from are its
/// encoding, and it is one that can be written.
pub proof fn law_read_accepts_only_encodings(input: Seq<u8>, prelude: PreludeView)
    requires
        read_outcome(input) == ReadOutcome::Complete(prelude),
    ensures
        prelude.valid(),
        prelude.encoded().len() == 26 + prelude.token.len() <= input.len(),
        input.take(26 + prelude.token.len() as int) == prelude.encoded(),
{
    let n = prelude.token.len() as int;
    assert forall|i: int| 0 <= i < 26 + n implies input[i] == #[trigger] prelude.encoded()[i] by {
        if i < 8 {
            assert(input.take(8)[i] == MAGIC@[i]);
        }
    }
    assert(input.take(26 + n) =~= prelude.encoded());
}

/// No proper part of an encoding passes for a prelude, nor for a bad one: its reader waits.
pub proof fn law_partial_prelude_is_incomplete(prelude: PreludeView, n: int)
    requires
        prelude.valid(),
        0 <= n < prelude.encoded().len(),
    ensures
        read_outcome(prelude.encoded().take(n)) is Incomplete,
{
    let all = prelude.encoded();
    let part = all.take(n);
    if n >= 8 {
        assert(part.take(8) =~= MAGIC@);
    }
    if n >= 9 {
        assert(part[8] == VERSION);
    }
    if n >= 26 {
        assert(part[25] == prelude.token.len() as u8);
    }
}

impl Prelude {
    /// Appends the prelude to `w`, or leaves `w` alone if the token is too long.
    pub fn write(&self, w: &mut Vec<u8>) -> (r: Result<(), PreludeError>)
        ensures
            match r {
                Ok(_) => self@.valid() && final(w)@ == old(w)@ + self@.encoded(),
                Err(e) => {
                    &&& self.token@.len() > MAX_TOKEN_LEN
                    &&& e == PreludeError::TokenTooLong(self.token.len())
                    &&& final(w)@ == old(w)@
                },
            },
    {
        if self.token.len() > MAX_TOKEN_LEN {
            return Err(PreludeError::TokenTooLong(self.token.len()));
        }
        let ghost start = w@;
        w.extend_from_slice(&MAGIC);
        w.push(VERSION);
        w.extend_from_slice(&self.tunnel_id);
        w.push(self.token.len() as u8);
        w.extend_from_slice(&self.token);
        proof {
            assert(w@ =~= start + self@.encoded());
        }
        Ok(())
    }

    /// Reads the prelude at the start of `r`; with it comes the number of bytes it takes.
    pub fn read(r: &[u8]) -> (res: Result<(Prelude, usize), PreludeError>)
        ensures
            match res {
                Ok((p, n)) => {
                    &&& read_outcome(r@) == ReadOutcome::Complete(p@)
                    &&& n == p@.encoded().len()
                },
                Err(PreludeError::UnexpectedEof) => read_outcome(r@) is Incomplete,
                Err(e) => read_outcome(r@) == ReadOutcome::Failed(e),
            },
    {
        let mut reader = PreludeReader::new();
        let mut at: usize = 0;
        proof {
            assert(r@.take(0) =~= Seq::<u8>::empty());
        }
        loop
            invariant
                at_field(reader@),
                at <= r@.len(),
                reader@ == r@.take(at as int),
            decreases 27 - at,
        {
            let n: usize = reader.want();
            if r.len() - at < n {
                proof {
                    if at >= 8 {
                        assert(r@.take(8) =~= reader@.take(8));
                    }
                }
                return Err(PreludeError::UnexpectedEof);
            }
            let field = vstd::slice::slice_subrange(r, at, at + n);
            let ghost upto = reader@ + field@;
            proof {
                assert(upto =~= r@.take(at + n));
                assert(upto + r@.skip(at + n) =~= r@);
            }
            match reader.feed(field) {
                PreludeStep::More => {
                    at = at + n;
                },
                PreludeStep::Done(p) => {
                    proof {
                        law_outcome_is_stable(upto, r@.skip(at + n));
                        law_read_accepts_only_encodings(upto, p@);
                    }
                    return Ok((p, at + n));
                },
                PreludeStep::Failed(e) => {
                    proof {
                        law_outcome_is_stable(upto, r@.skip(at + n));
                    }
                    return Err(e);
                },
            }
        }
    }
}

/// A prelude that is being read from a stream, field by field.
pub struct PreludeReader {
    received: Vec<u8>,
}

/// What became of the bytes of one field.
pub enum PreludeStep {
    /// The prelude goes on.
    More,
    /// The prelude is complete.
    Done(Prelude),
    /// The prelude is refused.
    Failed(PreludeError),
}

impl View for PreludeReader {
    type V = Seq<u8>;

    closed spec fn view(&self) -> Seq<u8> {
        self.received@
    }
}

impl PreludeReader {
    /// A reader that has seen nothing.
    pub fn new() -> (r: PreludeReader)
        ensures
            r@ == Seq::<u8>::empty(),
            at_field(r@),
    {
        PreludeReader { received: Vec::new() }
    }

    /// How many bytes to read next.
    pub fn want(&self) -> (n: usize)
        requires
            at_field(self@),
        ensures
            n == next_read(self@),
    {
        let have: usize = self.received.len();
        if have < 8 {
            8
        } else if have < 9 {
            1
        } else if have < 25 {
            16
        } else if have < 26 {
            1
        } else {
            self.received[25] as usize
        }
    }

    /// Takes the bytes of the field that [`Self::want`] asked for.
    pub fn feed(&mut self, bytes: &[u8]) -> (step: PreludeStep)
        requires
            at_field(old(self)@),
            bytes@.len() == next_read(old(self)@),
        ensures
            final(self)@ == old(self)@ + bytes@,
            match step {
                PreludeStep::More => {
                    &&& at_field(final(self)@)
                    &&& old(self)@.len() < final(self)@.len() <= 26
                },
                PreludeStep::Done(p) => {
                    &&& read_outcome(final(self)@) == ReadOutcome::Complete(p@)
                    &&& final(self)@.len() == p@.encoded().len()
                },
                PreludeStep::Failed(e) => {
                    &&& read_outcome(final(self)@) == ReadOutcome::Failed(e)
                    &&& e != PreludeError::UnexpectedEof
                },
            },
    {
        let ghost before = self.received@;
        let had: usize = self.received.len();
        self.received.extend_from_slice(bytes);
        proof {
            assert(self.received@ =~= before + bytes@);
            if had >= 8 {
                assert(self.received@.take(8) =~= before.take(8));
            }
        }
        if had == 0 {
            let mut i: usize = 0;
            while i < 8
                invariant
                    i <= 8,
                    self.received@.len() == 8,
                    self.received@ == old(self)@ + bytes@,
                    forall|j: int| 0 <= j < i ==> self.received@[j] == MAGIC@[j],
                decreases 8 - i,
            {
                if self.received[i] != MAGIC[i] {
                    proof {
                        assert(self.received@.take(8)[i as int] != MAGIC@[i as int]);
                    }
                    return PreludeStep::Failed(PreludeError::BadMagic);
                }
                i += 1;
            }
            proof {
                assert(self.received@.take(8) =~= MAGIC@);
            }
            PreludeStep::More
        } else if had == 8 {
            if self.received[8] != VERSION {
                return PreludeStep::Failed(PreludeError::UnsupportedVersion(self.received[8]));
            }
            PreludeStep::More
        } else if had == 9 {
            PreludeStep::More
        } else if had == 25 {
            let n: usize = self.received[25] as usize;
            if n > MAX_TOKEN_LEN {
                return PreludeStep::Failed(PreludeError::TokenTooLong(n));
            }
            PreludeStep::More
        } else {
            let v = &self.received;
            let tunnel_id: TunnelId = [
                v[9],
                v[10],
                v[11],
                v[12],
                v[13],
                v[14],
                v[15],
                v[16],
                v[17],
                v[18],
                v[19],
                v[20],
                v[21],
                v[22],
                v[23],
                v[24],
            ];
            let n: usize = v[25] as usize;
            let token = vstd::slice::slice_to_vec(vstd::slice::slice_subrange(v, 26, 26 + n));
            proof {
                assert(tunnel_id@ =~= v@.subrange(9, 25));
                assert(token@ =~= v@.subrange(26, 26 + n));
            }
            PreludeStep::Done(Prelude { tunnel_id, token })
        }
    }
}

/// The byte that stands for a reply.
pub open spec fn reply_byte(reply: AuthReply) -> u8 {
    match reply {
        AuthReply::Accept => 0x00,
        AuthReply::Reject => 0xff,
    }
}

/// The reply that a byte stands for: anything but zero rejects.
pub open spec fn reply_of(b: u8) -> AuthReply {
    if b == 0x00 {
        AuthReply::Accept
    } else {
        AuthReply::Reject
    }
}

/// Appends the reply's byte to `w`.
pub fn write_reply(w: &mut Vec<u8>, reply: AuthReply)
    ensures
        final(w)@ == old(w)@.push(reply_byte(reply)),
{
    let b: u8 = match reply {
        AuthReply::Accept => 0x00,
        AuthReply::Reject => 0xff,
    };
    w.push(b);
}

/// Reads the reply at the start of `r`; `None` if there is no byte to read.
pub fn read_reply(r: &[u8]) -> (res: Option<AuthReply>)
    ensures
        res == if r@.len() == 0 {
            None
        } else {
            Some(reply_of(r@[0]))
        },
{
    if r.len() == 0 {
        None
    } else if r[0] == 0x00 {
        Some(AuthReply::Accept)
    } else {
        Some(AuthReply::Reject)
    }
}

/// A reply is read as it was written.
pub proof fn law_reply_round_trip(reply: AuthReply)
    ensures
        reply_of(reply_byte(reply)) == reply,
{
}

/// Where the sending of one body stands.
#[derive(Debug, Copy, Clone, PartialEq, Eq, Structural)]
pub enum SendPhase {
    /// Nothing has been asked of the stream yet.
    Idle,
    /// The stream has been asked for room.
    AwaitCapacity,
    /// A chunk has been handed to the stream.
    AwaitSent,
    /// Nothing is left to do.
    Finished,
}

/// What a stream says of the room it has.
#[derive(Debug, Copy, Clone, PartialEq, Eq, Structural)]
pub enum Capacity {
    /// So many bytes may be sent now.
    Granted(usize),
    /// The stream is broken.
    Failed,
    /// The other side takes no more.
    Closed,
}

/// What happened to the stream since the last action.
#[derive(Debug, Copy, Clone, PartialEq, Eq, Structural)]
pub enum SendEvent {
    Start,
    Capacity(Capacity),
    /// A chunk was handed over, and the stream took it or refused it.
    Sent(bool),
}

/// What to do with the stream next.
pub enum SendAction {
    /// Ask for room for so many bytes, and wait for it.
    Reserve(usize),
    /// Hand over a chunk, and close the stream after it if `end` is set.
    Send { chunk: Bytes, end: bool },
    /// Stop: all went well, or not.
    Done(bool),
}

/// [`SendAction`] over plain bytes.
pub enum SendActionView {
    Reserve(nat),
    Send { chunk: Seq<u8>, end: bool },
    Done(bool),
}

impl View for SendAction {
    type V = SendActionView;

    open spec fn view(&self) -> SendActionView {
        match *self {
            SendAction::Reserve(n) => SendActionView::Reserve(n as nat),
            SendAction::Send { chunk, end } => SendActionView::Send { chunk: bytes_of(chunk), end },
            SendAction::Done(ok) => SendActionView::Done(ok),
        }
    }
}

/// A body on its way out: what is left of it, and whether the stream ends with it.
pub struct Outgoing {
    data: Bytes,
    end: bool,
    phase: SendPhase,
}

/// [`Outgoing`] over plain bytes.
#[verifier::ext_equal]
pub struct OutgoingView {
    pub data: Seq<u8>,
    pub end: bool,
    pub phase: SendPhase,
}

impl View for Outgoing {
    type V = OutgoingView;

    closed spec fn view(&self) -> OutgoingView {
        OutgoingView { data: bytes_of(self.data), end: self.end, phase: self.phase }
    }
}

impl OutgoingView {
    /// Whether `event` can follow the last action.
    pub open spec fn expects(self, event: SendEvent) -> bool {
        match event {
            SendEvent::Start => self.phase == SendPhase::Idle,
            SendEvent::Capacity(_) => self.phase == SendPhase::AwaitCapacity,
            SendEvent::Sent(_) => self.phase == SendPhase::AwaitSent,
        }
    }

    /// The same body in another phase.
    pub open spec fn now(self, phase: SendPhase) -> OutgoingView {
        OutgoingView { phase, ..self }
    }

    /// Hands over the first `n` bytes. The stream ends with them if they are the last ones
    /// of a body that is meant to end it.
    pub open spec fn hand_over(self, n: int) -> (OutgoingView, SendActionView) {
        let rest = self.data.skip(n);
        (
            OutgoingView { data: rest, end: self.end, phase: SendPhase::AwaitSent },
            SendActionView::Send { chunk: self.data.take(n), end: rest.len() == 0 && self.end },
        )
    }

    /// The next state and action after `event`.
    pub open spec fn step(self, event: SendEvent) -> (OutgoingView, SendActionView) {
        match event {
            SendEvent::Start => if self.data.len() == 0 {
                self.hand_over(0)
            } else {
                (self.now(SendPhase::AwaitCapacity), SendActionView::Reserve(self.data.len()))
            },
            SendEvent::Capacity(Capacity::Granted(room)) => if room == 0 {
                (self, SendActionView::Reserve(self.data.len()))
            } else if room < self.data.len() {
                self.hand_over(room as int)
            } else {
                self.hand_over(self.data.len() as int)
            },
            SendEvent::Capacity(Capacity::Failed) => (
                self.now(SendPhase::Finished),
                SendActionView::Done(false),
            ),
            SendEvent::Capacity(Capacity::Closed) => (
                self.now(SendPhase::Finished),
                SendActionView::Done(true),
            ),
            SendEvent::Sent(false) => (self.now(SendPhase::Finished), SendActionView::Done(false)),
            SendEvent::Sent(true) => if self.data.len() == 0 {
                (self.now(SendPhase::Finished), SendActionView::Done(true))
            } else {
                (self.now(SendPhase::AwaitCapacity), SendActionView::Reserve(self.data.len()))
            },
        }
    }

    /// The state and the actions after a run of events.
    pub open spec fn run(self, events: Seq<SendEvent>) -> (OutgoingView, Seq<SendActionView>)
        decreases events.len(),
    {
        if events.len() == 0 {
            (self, Seq::empty())
        } else {
            let (mid, actions) = self.run(events.drop_last());
            let (last, action) = mid.step(events.last());
            (last, actions.push(action))
        }
    }

    /// Every event of the run was one that could follow.
    pub open spec fn admits(self, events: Seq<SendEvent>) -> bool
        decreases events.len(),
    {
        events.len() == 0 || {
            &&& self.admits(events.drop_last())
            &&& self.run(events.drop_last()).0.expects(events.last())
        }
    }
}

/// A body that has not been started.
pub open spec fn fresh(data: Seq<u8>, end: bool) -> OutgoingView {
    OutgoingView { data, end, phase: SendPhase::Idle }
}

/// All bytes that a run of actions hands to the stream, in order.
pub open spec fn sent_bytes(actions: Seq<SendActionView>) -> Seq<u8>
    decreases actions.len(),
{
    if actions.len() == 0 {
        Seq::empty()
    } else {
        sent_bytes(actions.drop_last()) + match actions.last() {
            SendActionView::Send { chunk, .. } => chunk,
            _ => Seq::empty(),
        }
    }
}

/// Nothing is lost, doubled or reordered: at any moment, what was sent followed by what is
/// left is the body.
pub proof fn law_sent_and_rest_is_the_body(data: Seq<u8>, end: bool, events: Seq<SendEvent>)
    ensures
        sent_bytes(fresh(data, end).run(events).1) + fresh(data, end).run(events).0.data == data,
        fresh(data, end).run(events).0.end == end,
    decreases events.len(),
{
    let start = fresh(data, end);
    if events.len() == 0 {
        assert(sent_bytes(start.run(events).1) + start.data =~= data);
    } else {
        law_sent_and_rest_is_the_body(data, end, events.drop_last());
        let (mid, before) = start.run(events.drop_last());
        let (last, action) = mid.step(events.last());
        assert(before.push(action).drop_last() =~= before);
        assert(sent_bytes(before.push(action)) + last.data =~= sent_bytes(before) + mid.data);
    }
}

/// Sending that stops in good order has sent the whole body, unless the other side closed
/// the stream.
pub proof fn law_done_means_all_sent(data: Seq<u8>, end: bool, events: Seq<SendEvent>)
    requires
        fresh(data, end).admits(events),
        events.len() > 0,
        fresh(data, end).run(events).1.last() == SendActionView::Done(true),
        events.last() != SendEvent::Capacity(Capacity::Closed),
    ensures
        sent_bytes(fresh(data, end).run(events).1) == data,
{
    law_sent_and_rest_is_the_body(data, end, events);
    let start = fresh(data, end);
    let (mid, before) = start.run(events.drop_last());
    let (last, action) = mid.step(events.last());
    assert(last.data.len() == 0);
    assert(sent_bytes(start.run(events).1) + last.data =~= sent_bytes(start.run(events).1));
}

/// Whenever room is granted, bytes are handed over: some, and no more than there is room for. A
/// grant of nothing is answered by asking again.
pub proof fn law_chunks_fit_the_grant(
    data: Seq<u8>,
    end: bool,
    events: Seq<SendEvent>,
    i: int,
    room: usize,
)
    requires
        fresh(data, end).admits(events),
        0 <= i < events.len(),
        events[i] == SendEvent::Capacity(Capacity::Granted(room)),
    ensures
        match fresh(data, end).run(events).1[i] {
            SendActionView::Send { chunk, .. } => 0 < chunk.len() <= room,
            SendActionView::Reserve(n) => room == 0 && n > 0,
            SendActionView::Done(_) => false,
        },
{
    let start = fresh(data, end);
    let upto = events.take(i + 1);
    lemma_run_prefix(start, events, i + 1);
    lemma_run_prefix(start, events, i);
    assert(upto.drop_last() =~= events.take(i));
    assert(upto.last() == events[i]);
    assert(start.run(upto).1.last() == start.run(events).1[i]);
    lemma_waits_with_data(data, end, events.take(i));
}

/// A sender that waits for room has something to send.
proof fn lemma_waits_with_data(data: Seq<u8>, end: bool, events: Seq<SendEvent>)
    requires
        fresh(data, end).admits(events),
    ensures
        fresh(data, end).run(events).0.phase == SendPhase::AwaitCapacity ==> fresh(data, end).run(
            events,
        ).0.data.len() > 0,
    decreases events.len(),
{
    if events.len() > 0 {
        lemma_waits_with_data(data, end, events.drop_last());
    }
}

/// How many of the actions hand over a chunk that ends the stream.
pub open spec fn endings(actions: Seq<SendActionView>) -> nat
    decreases actions.len(),
{
    if actions.len() == 0 {
        0
    } else {
        endings(actions.drop_last()) + match actions.last() {
            SendActionView::Send { end: true, .. } => 1nat,
            _ => 0,
        }
    }
}

/// The end does come: sending that stops in good order, and was not closed by the other side,
/// has ended the stream exactly once if the body was meant to end it, and never otherwise.
pub proof fn law_end_comes_once(data: Seq<u8>, end: bool, events: Seq<SendEvent>)
    requires
        fresh(data, end).admits(events),
        events.len() > 0,
        fresh(data, end).run(events).1.last() == SendActionView::Done(true),
        events.last() != SendEvent::Capacity(Capacity::Closed),
    ensures
        endings(fresh(data, end).run(events).1) == if end {
            1nat
        } else {
            0
        },
{
    let start = fresh(data, end);
    let before = events.drop_last();
    let (mid, actions) = start.run(before);
    let (last, action) = mid.step(events.last());
    lemma_endings(data, end, before);
    assert(actions.push(action).drop_last() =~= actions);
}

/// What the phase tells of the endings so far.
proof fn lemma_endings(data: Seq<u8>, end: bool, events: Seq<SendEvent>)
    requires
        fresh(data, end).admits(events),
    ensures
        ({
            let (state, actions) = fresh(data, end).run(events);
            &&& state.end == end
            &&& state.phase == SendPhase::Idle || state.phase == SendPhase::AwaitCapacity
                ==> endings(actions) == 0
            &&& state.phase == SendPhase::AwaitCapacity ==> state.data.len() > 0
            &&& state.phase == SendPhase::AwaitSent ==> endings(actions) == if end
                && state.data.len() == 0 {
                1nat
            } else {
                0
            }
        }),
    decreases events.len(),
{
    if events.len() > 0 {
        let before = events.drop_last();
        lemma_endings(data, end, before);
        let (mid, actions) = fresh(data, end).run(before);
        let (last, action) = mid.step(events.last());
        assert(actions.push(action).drop_last() =~= actions);
    }
}

/// The stream is ended only by the last byte of a body that is meant to end it, and then
/// nothing more is handed over.
pub proof fn law_end_comes_last(data: Seq<u8>, end: bool, events: Seq<SendEvent>, i: int)
    requires
        fresh(data, end).admits(events),
        0 <= i < events.len(),
        fresh(data, end).run(events).1[i] matches SendActionView::Send { end: true, .. },
    ensures
        end,
        sent_bytes(fresh(data, end).run(events).1.take(i + 1)) == data,
        forall|j: int|
            i < j < events.len() ==> !(#[trigger] fresh(data, end).run(events).1[j] is Send),
{
    let start = fresh(data, end);
    lemma_run_prefix(start, events, i + 1);
    let upto = events.take(i + 1);
    law_sent_and_rest_is_the_body(data, end, upto);
    assert(upto.drop_last() =~= events.take(i));
    let mid = start.run(events.take(i)).0;
    assert(upto.last() == events[i]);
    assert(start.run(upto).1.last() == start.run(events).1[i]);
    lemma_run_prefix(start, events, i);
    law_sent_and_rest_is_the_body(data, end, events.take(i));
    assert(start.run(upto).0.data.len() == 0);
    assert(sent_bytes(start.run(upto).1) + start.run(upto).0.data =~= sent_bytes(
        start.run(upto).1,
    ));
    assert forall|j: int| i < j < events.len() implies !(#[trigger] start.run(events).1[j] is Send) by {
        lemma_after_the_end(start, events, i, j);
    }
}

/// The actions of a run do not change when more events follow.
proof fn lemma_run_prefix(start: OutgoingView, events: Seq<SendEvent>, n: int)
    requires
        0 <= n <= events.len(),
    ensures
        start.run(events).1.len() == events.len(),
        start.run(events.take(n)).1 == start.run(events).1.take(n),
        start.admits(events) ==> start.admits(events.take(n)),
    decreases events.len(),
{
    if n == events.len() {
        assert(events.take(n) =~= events);
        if events.len() > 0 {
            lemma_run_prefix(start, events.drop_last(), n - 1);
        }
        assert(start.run(events).1.take(n) =~= start.run(events).1);
    } else {
        lemma_run_prefix(start, events.drop_last(), n);
        assert(events.drop_last().take(n) =~= events.take(n));
        assert(start.run(events).1.take(n) =~= start.run(events.drop_last()).1.take(n));
    }
}

/// Once the last byte has been handed over, the sender only waits for it and stops.
proof fn lemma_after_the_end(start: OutgoingView, events: Seq<SendEvent>, i: int, j: int)
    requires
        start.admits(events),
        0 <= i < j < events.len(),
        start.run(events).1[i] is Send,
        start.run(events.take(i + 1)).0.data.len() == 0,
    ensures
        !(start.run(events).1[j] is Send),
        start.run(events.take(j + 1)).0.phase == SendPhase::Finished,
        start.run(events.take(j + 1)).0.data.len() == 0,
    decreases j,
{
    lemma_run_prefix(start, events, j + 1);
    lemma_run_prefix(start, events, j);
    assert(events.take(j + 1).drop_last() =~= events.take(j));
    assert(events.take(j + 1).last() == events[j]);
    assert(start.run(events.take(j + 1)).1.last() == start.run(events).1[j]);
    if j == i + 1 {
        assert(events.take(i + 1).drop_last() =~= events.take(i));
        lemma_run_prefix(start, events, i + 1);
        assert(start.run(events.take(i + 1)).1.last() == start.run(events).1[i]);
        assert(start.run(events.take(i + 1)).0.phase == SendPhase::AwaitSent);
    } else {
        lemma_after_the_end(start, events, i, j - 1);
    }
}

impl Outgoing {
    /// A body to send; `end` says whether the stream ends with it.
    pub fn new(data: Bytes, end: bool) -> (r: Outgoing)
        ensures
            r@ == fresh(bytes_of(data), end),
    {
        Outgoing { data, end, phase: SendPhase::Idle }
    }

    /// Where the sending stands.
    pub fn phase(&self) -> (r: SendPhase)
        ensures
            r == self@.phase,
    {
        self.phase
    }
}

/// Decides what to do next to send a body over a stream no faster than the stream makes
/// room for it, so that a slow receiver never makes the sender pile up memory.
pub fn send_h2_with_backpressure(send: &mut Outgoing, event: SendEvent) -> (action: SendAction)
    requires
        old(send)@.expects(event),
    ensures
        (final(send)@, action@) == old(send)@.step(event),
{
    match event {
        SendEvent::Start => {
            if send.data.is_empty() {
                hand_over(send, 0)
            } else {
                send.phase = SendPhase::AwaitCapacity;
                SendAction::Reserve(send.data.len())
            }
        },
        SendEvent::Capacity(Capacity::Granted(room)) => {
            let left: usize = send.data.len();
            if room == 0 {
                SendAction::Reserve(left)
            } else if room < left {
                hand_over(send, room)
            } else {
                hand_over(send, left)
            }
        },
        SendEvent::Capacity(Capacity::Failed) => {
            send.phase = SendPhase::Finished;
            SendAction::Done(false)
        },
        SendEvent::Capacity(Capacity::Closed) => {
            send.phase = SendPhase::Finished;
            SendAction::Done(true)
        },
        SendEvent::Sent(ok) => {
            if !ok {
                send.phase = SendPhase::Finished;
                SendAction::Done(false)
            } else if send.data.is_empty() {
                send.phase = SendPhase::Finished;
                SendAction::Done(true)
            } else {
                send.phase = SendPhase::AwaitCapacity;
                SendAction::Reserve(send.data.len())
            }
        },
    }
}

/// Takes the next `n` bytes off the body.
fn hand_over(send: &mut Outgoing, n: usize) -> (action: SendAction)
    requires
        n <= old(send)@.data.len(),
    ensures
        (final(send)@, action@) == old(send)@.hand_over(n as int),
{
    let chunk = send.data.split_to(n);
    let end = send.data.is_empty() && send.end;
    send.phase = SendPhase::AwaitSent;
    SendAction::Send { chunk, end }
}

/// A prelude byte for byte: the text `TUNNELD` and a zero, the version 1, the sixteen bytes of the
/// tunnel's id, the token's length, and the token. Only tokens of up to 128 bytes fit.
pub proof fn law_prelude_on_the_wire(prelude: PreludeView, i: int)
    ensures
        prelude.valid() <==> prelude.tunnel_id.len() == 16 && prelude.token.len() <= 128,
        prelude.valid() ==> {
            let wire = prelude.encoded();
            &&& wire.len() == 26 + prelude.token.len()
            &&& wire.take(9) == seq![0x54u8, 0x55, 0x4e, 0x4e, 0x45, 0x4c, 0x44, 0x00, 0x01]
            &&& 0 <= i < 16 ==> wire[9 + i] == prelude.tunnel_id[i]
            &&& wire[25] == prelude.token.len()
            &&& 0 <= i < prelude.token.len() ==> wire[26 + i] == prelude.token[i]
        },
{
    if prelude.valid() {
        assert(prelude.encoded().take(9) =~= seq![
            0x54u8,
            0x55,
            0x4e,
            0x4e,
            0x45,
            0x4c,
            0x44,
            0x00,
            0x01,
        ]);
    }
}

/// A prelude is refused at the first byte that cannot be right: for another start than `TUNNELD`
/// and a zero, for another version than 1, for a token of more than 128 bytes. It is refused for
/// nothing else, and read as soon as it is there.
pub proof fn law_what_a_prelude_is_refused_for(input: Seq<u8>)
    ensures
        ({
            let start = seq![0x54u8, 0x55, 0x4e, 0x4e, 0x45, 0x4c, 0x44, 0x00];
            let started = input.len() >= 8 && input.take(8) == start;
            let versioned = started && input.len() >= 9 && input[8] == 1;
            let measured = versioned && input.len() >= 26 && input[25] <= 128;
            &&& read_outcome(input) == ReadOutcome::Failed(PreludeError::BadMagic) <==> input.len()
                >= 8 && !started
            &&& started && input.len() >= 9 && input[8] != 1 ==> read_outcome(input)
                == ReadOutcome::Failed(PreludeError::UnsupportedVersion(input[8]))
            &&& versioned && input.len() >= 26 && input[25] > 128 ==> read_outcome(input)
                == ReadOutcome::Failed(PreludeError::TokenTooLong(input[25] as usize))
            &&& read_outcome(input) is Complete <==> measured && input.len() >= 26 + input[25]
            &&& read_outcome(input) is Incomplete <==> {
                ||| input.len() < 8
                ||| started && input.len() < 9
                ||| versioned && input.len() < 26
                ||| measured && input.len() < 26 + input[25]
            }
        }),
{
    assert(MAGIC@ =~= seq![0x54u8, 0x55, 0x4e, 0x4e, 0x45, 0x4c, 0x44, 0x00]);
}

/// One who reads a prelude field by field reads on from border to border, never beyond its end,
/// and comes to its end.
pub proof fn law_reader_stops_at_the_end(prelude: PreludeView, n: int)
    requires
        prelude.valid(),
        n == 0 || n == 8 || n == 9 || n == 25 || n == 26,
    ensures
        ({
            let wire = prelude.encoded();
            let next = n + next_read(wire.take(n));
            &&& at_field(wire.take(n))
            &&& next == if n == 0 {
                8
            } else if n == 8 {
                9
            } else if n == 9 {
                25
            } else if n == 25 {
                26
            } else {
                wire.len() as int
            }
        }),
{
    let wire = prelude.encoded();
    let part = wire.take(n);
    if n >= 8 {
        assert(part.take(8) =~= MAGIC@);
    }
    if n >= 9 {
        assert(part[8] == VERSION);
    }
    if n >= 26 {
        assert(part[25] == prelude.token.len() as u8);
        if prelude.token.len() > 0 {
            law_partial_prelude_is_incomplete(prelude, n);
        }
    }
}

/// A zero accepts, and every other byte rejects; 0 and 255 are the ones that are sent.
pub proof fn law_reply_bytes(b: u8)
    ensures
        reply_of(b) == AuthReply::Accept <==> b == 0,
        reply_of(b) == AuthReply::Reject <==> b != 0,
        reply_byte(AuthReply::Accept) == 0,
        reply_byte(AuthReply::Reject) == 255,
{
}

/// Sending never stops by itself. It fails exactly when the stream breaks or refuses a chunk, and
/// is done exactly when the other side closes the stream or has taken the last byte.
pub proof fn law_sending_never_stops_by_itself(data: Seq<u8>, end: bool, events: Seq<SendEvent>)
    requires
        fresh(data, end).admits(events),
        events.len() > 0,
    ensures
        ({
            let last = fresh(data, end).run(events).1.last();
            let sent = sent_bytes(fresh(data, end).run(events.drop_last()).1);
            &&& last == SendActionView::Done(false) <==> {
                ||| events.last() == SendEvent::Capacity(Capacity::Failed)
                ||| events.last() == SendEvent::Sent(false)
            }
            &&& last == SendActionView::Done(true) <==> {
                ||| events.last() == SendEvent::Capacity(Capacity::Closed)
                ||| events.last() == SendEvent::Sent(true) && sent == data
            }
        }),
{
    lemma_left(data, end, events.drop_last());
    let start = fresh(data, end);
    let (mid, before) = start.run(events.drop_last());
    if sent_bytes(before) == data {
        assert(mid.data.len() == 0);
    }
    if mid.data.len() == 0 {
        assert(sent_bytes(before) =~= data);
    }
}

/// What is left of a body is the body without what was sent.
proof fn lemma_left(data: Seq<u8>, end: bool, events: Seq<SendEvent>)
    ensures
        ({
            let (state, actions) = fresh(data, end).run(events);
            &&& sent_bytes(actions).len() <= data.len()
            &&& state.data == data.skip(sent_bytes(actions).len() as int)
            &&& sent_bytes(actions) == data.take(sent_bytes(actions).len() as int)
            &&& state.end == end
        }),
{
    law_sent_and_rest_is_the_body(data, end, events);
    let (state, actions) = fresh(data, end).run(events);
    let sent = sent_bytes(actions);
    assert(data.skip(sent.len() as int) =~= state.data);
    assert(data.take(sent.len() as int) =~= sent);
}

/// Whatever a body's length, room is asked for all that is left of it: at the start, after every
/// chunk that the stream took, and after a grant of nothing. Under any other grant, as much is
/// sent as there is room for, in order, and the last chunk ends the stream if the body is meant to.
/// A body without bytes is sent at once.
pub proof fn law_all_that_is_left_is_sent(data: Seq<u8>, end: bool, events: Seq<SendEvent>)
    requires
        fresh(data, end).admits(events),
        events.len() > 0,
    ensures
        ({
            let action = fresh(data, end).run(events).1.last();
            let sent = sent_bytes(fresh(data, end).run(events.drop_last()).1).len() as int;
            let left = data.len() - sent;
            match events.last() {
                SendEvent::Start => {
                    &&& data.len() > 0 ==> action == SendActionView::Reserve(data.len())
                    &&& data.len() == 0 ==> action == (SendActionView::Send {
                        chunk: Seq::empty(),
                        end,
                    })
                },
                SendEvent::Sent(true) => left > 0 ==> action == SendActionView::Reserve(
                    left as nat,
                ),
                SendEvent::Capacity(Capacity::Granted(room)) => {
                    &&& room == 0 ==> action == SendActionView::Reserve(left as nat)
                    &&& 0 < room < left ==> action == (SendActionView::Send {
                        chunk: data.subrange(sent, sent + room),
                        end: false,
                    })
                    &&& 0 < room && left <= room ==> action == (SendActionView::Send {
                        chunk: data.subrange(sent, data.len() as int),
                        end,
                    })
                },
                _ => true,
            }
        }),
{
    let start = fresh(data, end);
    let before = events.drop_last();
    lemma_left(data, end, before);
    let (mid, actions) = start.run(before);
    let sent = sent_bytes(actions).len() as int;
    match events.last() {
        SendEvent::Start => {
            lemma_idle_is_fresh(data, end, before);
            assert(mid.data.take(0) =~= Seq::<u8>::empty());
        },
        SendEvent::Capacity(Capacity::Granted(room)) => {
            if 0 < room < mid.data.len() {
                assert(mid.data.take(room as int) =~= data.subrange(sent, sent + room));
            } else {
                assert(mid.data.take(mid.data.len() as int) =~= data.subrange(
                    sent,
                    data.len() as int,
                ));
            }
        },
        _ => {},
    }
}

/// Nothing has been sent before the start.
proof fn lemma_idle_is_fresh(data: Seq<u8>, end: bool, events: Seq<SendEvent>)
    requires
        fresh(data, end).admits(events),
        fresh(data, end).run(events).0.phase == SendPhase::Idle,
    ensures
        events.len() == 0,
        fresh(data, end).run(events).0.data == data,
{
    if events.len() > 0 {
        let mid = fresh(data, end).run(events.drop_last()).0;
        assert(mid.expects(events.last()));
    }
}

/// A sender takes every answer that the stream can give to what it asked: any grant, failure or
/// close when it asked for room, and either outcome when it handed over a chunk.
pub proof fn law_sender_takes_every_answer(
    data: Seq<u8>,
    end: bool,
    events: Seq<SendEvent>,
    capacity: Capacity,
    ok: bool,
)
    requires
        fresh(data, end).admits(events),
    ensures
        events.len() == 0 ==> fresh(data, end).run(events).0.expects(SendEvent::Start),
        events.len() > 0 ==> match fresh(data, end).run(events).1.last() {
            SendActionView::Reserve(_) => fresh(data, end).run(events).0.expects(
                SendEvent::Capacity(capacity),
            ),
            SendActionView::Send { .. } => fresh(data, end).run(events).0.expects(
                SendEvent::Sent(ok),
            ),
            SendActionView::Done(_) => true,
        },
{
}

/// Preludes and what to do with a stream are seen by contracts as they are.
pub proof fn law_preludes_are_seen_whole(p: Prelude, action: SendAction)
    ensures
        p@.tunnel_id == p.tunnel_id@,
        p@.token == p.token@,
        match action {
            SendAction::Reserve(n) => action@ == SendActionView::Reserve(n as nat),
            SendAction::Send { chunk, end } => action@ == (SendActionView::Send {
                chunk: bytes_of(chunk),
                end,
            }),
            SendAction::Done(ok) => action@ == SendActionView::Done(ok),
        },
{
}

} // verus!
