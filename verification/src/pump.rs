//! Bytes on their way between a stream of the tunnel and a socket or a body.

use bytes::Bytes;
use vstd::prelude::*;

use crate::outside::buffers::bytes_of;

verus! {

/// How many bytes are read from a socket at a time.
pub const WS_PIPE_BUF: usize = 16384;

/// What came of asking for the next part of a body.
pub enum BodyEvent {
    /// A part of the body.
    Data(Bytes),
    /// Something that is no part of the body, such as trailers.
    Other,
    /// The body broke off.
    Failed,
    /// The body is complete.
    End,
}

/// What to do with a body on its way into a stream.
pub enum BodyAction {
    /// Send these bytes, and ask for more.
    Send(Bytes),
    /// Send nothing, and ask for more.
    Skip,
    /// End the stream.
    Finish,
    /// Give up, without ending the stream.
    Abort,
}

/// [`BodyEvent`] over plain bytes.
pub enum BodyEventView {
    Data(Seq<u8>),
    Other,
    Failed,
    End,
}

/// [`BodyAction`] over plain bytes.
pub enum BodyActionView {
    Send(Seq<u8>),
    Skip,
    Finish,
    Abort,
}

impl View for BodyEvent {
    type V = BodyEventView;

    open spec fn view(&self) -> BodyEventView {
        match *self {
            BodyEvent::Data(b) => BodyEventView::Data(bytes_of(b)),
            BodyEvent::Other => BodyEventView::Other,
            BodyEvent::Failed => BodyEventView::Failed,
            BodyEvent::End => BodyEventView::End,
        }
    }
}

impl View for BodyAction {
    type V = BodyActionView;

    open spec fn view(&self) -> BodyActionView {
        match *self {
            BodyAction::Send(b) => BodyActionView::Send(bytes_of(b)),
            BodyAction::Skip => BodyActionView::Skip,
            BodyAction::Finish => BodyActionView::Finish,
            BodyAction::Abort => BodyActionView::Abort,
        }
    }
}

/// What follows a part of a request's body: a body that breaks off ends the stream, as a
/// complete one does.
pub open spec fn uploaded(event: BodyEventView) -> BodyActionView {
    match event {
        BodyEventView::Data(b) => if b.len() == 0 {
            BodyActionView::Skip
        } else {
            BodyActionView::Send(b)
        },
        BodyEventView::Other => BodyActionView::Skip,
        BodyEventView::Failed => BodyActionView::Finish,
        BodyEventView::End => BodyActionView::Finish,
    }
}

/// What follows a part of a response's body: one that breaks off does not end the stream.
pub open spec fn downloaded(event: BodyEventView) -> BodyActionView {
    match event {
        BodyEventView::Failed => BodyActionView::Abort,
        _ => uploaded(event),
    }
}

/// What to do after a part of the body of a public request.
pub fn upload_step(event: BodyEvent) -> (action: BodyAction)
    ensures
        action@ == uploaded(event@),
{
    match event {
        BodyEvent::Data(b) => if b.is_empty() {
            BodyAction::Skip
        } else {
            BodyAction::Send(b)
        },
        BodyEvent::Other => BodyAction::Skip,
        BodyEvent::Failed => BodyAction::Finish,
        BodyEvent::End => BodyAction::Finish,
    }
}

/// What to do after a part of the body of the local service's response.
pub fn download_step(event: BodyEvent) -> (action: BodyAction)
    ensures
        action@ == downloaded(event@),
{
    match event {
        BodyEvent::Failed => BodyAction::Abort,
        other => upload_step(other),
    }
}

/// The bytes of a run of events.
pub open spec fn body_bytes(events: Seq<BodyEventView>) -> Seq<u8>
    decreases events.len(),
{
    if events.len() == 0 {
        Seq::empty()
    } else {
        body_bytes(events.drop_last()) + match events.last() {
            BodyEventView::Data(b) => b,
            _ => Seq::empty(),
        }
    }
}

/// The bytes that a run of actions sends.
pub open spec fn forwarded_bytes(actions: Seq<BodyActionView>) -> Seq<u8>
    decreases actions.len(),
{
    if actions.len() == 0 {
        Seq::empty()
    } else {
        forwarded_bytes(actions.drop_last()) + match actions.last() {
            BodyActionView::Send(b) => b,
            _ => Seq::empty(),
        }
    }
}

/// A body arrives as it was sent, in both directions: every byte of it, in order, and none
/// besides.
pub proof fn law_bodies_arrive_whole(events: Seq<BodyEventView>)
    ensures
        forwarded_bytes(events.map_values(|e: BodyEventView| uploaded(e))) == body_bytes(events),
        forwarded_bytes(events.map_values(|e: BodyEventView| downloaded(e))) == body_bytes(events),
    decreases events.len(),
{
    let up = events.map_values(|e: BodyEventView| uploaded(e));
    let down = events.map_values(|e: BodyEventView| downloaded(e));
    if events.len() > 0 {
        law_bodies_arrive_whole(events.drop_last());
        assert(up.drop_last() =~= events.drop_last().map_values(|e: BodyEventView| uploaded(e)));
        assert(down.drop_last() =~= events.drop_last().map_values(
            |e: BodyEventView| downloaded(e),
        ));
        assert(forwarded_bytes(up) =~= body_bytes(events));
        assert(forwarded_bytes(down) =~= body_bytes(events));
    }
}

/// Whether these are the events of one body up to its end: `last` comes last, and nothing but
/// parts and other frames before it.
pub open spec fn body_until(events: Seq<BodyEventView>, last: BodyEventView) -> bool {
    &&& events.len() > 0
    &&& events.last() == last
    &&& forall|i: int|
        0 <= i < events.len() - 1 ==> (#[trigger] events[i] is Data || events[i] is Other)
}

/// How many of the actions end the stream.
pub open spec fn finishes(actions: Seq<BodyActionView>) -> nat
    decreases actions.len(),
{
    if actions.len() == 0 {
        0
    } else {
        finishes(actions.drop_last()) + if actions.last() is Finish {
            1nat
        } else {
            0
        }
    }
}

/// A body that ends, ends its stream: exactly once, and after everything else. So does a
/// request's body that breaks off; a response's body that breaks off never does.
pub proof fn law_bodies_end_once(events: Seq<BodyEventView>)
    ensures
        body_until(events, BodyEventView::End) ==> {
            let up = events.map_values(|e: BodyEventView| uploaded(e));
            let down = events.map_values(|e: BodyEventView| downloaded(e));
            &&& finishes(up) == 1 && up.last() is Finish
            &&& finishes(down) == 1 && down.last() is Finish
        },
        body_until(events, BodyEventView::Failed) ==> {
            let up = events.map_values(|e: BodyEventView| uploaded(e));
            let down = events.map_values(|e: BodyEventView| downloaded(e));
            &&& finishes(up) == 1 && up.last() is Finish
            &&& finishes(down) == 0 && down.last() is Abort
        },
{
    if body_until(events, BodyEventView::End) || body_until(events, BodyEventView::Failed) {
        let up = events.map_values(|e: BodyEventView| uploaded(e));
        let down = events.map_values(|e: BodyEventView| downloaded(e));
        assert forall|i: int| 0 <= i < up.len() - 1 implies !(#[trigger] up.drop_last()[i]
            is Finish) by {
            assert(events[i] is Data || events[i] is Other);
        }
        assert forall|i: int| 0 <= i < down.len() - 1 implies !(#[trigger] down.drop_last()[i]
            is Finish) by {
            assert(events[i] is Data || events[i] is Other);
        }
        lemma_no_finish(up.drop_last());
        lemma_no_finish(down.drop_last());
    }
}

/// Actions of which none ends the stream.
proof fn lemma_no_finish(actions: Seq<BodyActionView>)
    requires
        forall|i: int| 0 <= i < actions.len() ==> !(#[trigger] actions[i] is Finish),
    ensures
        finishes(actions) == 0,
    decreases actions.len(),
{
    if actions.len() > 0 {
        let before = actions.drop_last();
        assert forall|i: int| 0 <= i < before.len() implies !(#[trigger] before[i] is Finish) by {
            assert(before[i] == actions[i]);
        }
        lemma_no_finish(before);
    }
}

/// What came of asking a stream of the tunnel for the next part of a body.
pub enum StreamEvent {
    /// The stream had bytes.
    Chunk(Bytes),
    /// The stream broke.
    Failed,
    /// The stream ended.
    End,
}

/// What to do with a body on its way out of the tunnel.
pub enum StreamAction {
    /// Pass these bytes on, give the stream room for so many bytes more, and ask for the next.
    Pass { chunk: Bytes, room: usize },
    /// Pass nothing on, and ask for the next.
    Skip,
    /// The body is over.
    Finish,
}

/// [`StreamEvent`] over plain bytes.
pub enum StreamEventView {
    Chunk(Seq<u8>),
    Failed,
    End,
}

/// [`StreamAction`] over plain bytes.
pub enum StreamActionView {
    Pass { chunk: Seq<u8>, room: nat },
    Skip,
    Finish,
}

impl View for StreamEvent {
    type V = StreamEventView;

    open spec fn view(&self) -> StreamEventView {
        match *self {
            StreamEvent::Chunk(b) => StreamEventView::Chunk(bytes_of(b)),
            StreamEvent::Failed => StreamEventView::Failed,
            StreamEvent::End => StreamEventView::End,
        }
    }
}

impl View for StreamAction {
    type V = StreamActionView;

    open spec fn view(&self) -> StreamActionView {
        match *self {
            StreamAction::Pass { chunk, room } => StreamActionView::Pass {
                chunk: bytes_of(chunk),
                room: room as nat,
            },
            StreamAction::Skip => StreamActionView::Skip,
            StreamAction::Finish => StreamActionView::Finish,
        }
    }
}

/// What follows a part of a response's body that comes out of the tunnel. A stream that breaks
/// ends the body, as one that ends does.
pub open spec fn relayed_part(event: StreamEventView) -> StreamActionView {
    match event {
        StreamEventView::Chunk(b) => StreamActionView::Pass { chunk: b, room: b.len() },
        _ => StreamActionView::Finish,
    }
}

/// What follows a part of a request's body that comes out of the tunnel: as for a response,
/// but empty parts are left out.
pub open spec fn taken_part(event: StreamEventView) -> StreamActionView {
    match event {
        StreamEventView::Chunk(b) if b.len() == 0 => StreamActionView::Skip,
        _ => relayed_part(event),
    }
}

/// What to do after a part of a response's body that goes to the public. The stream gets room
/// for more once the public has taken the part.
pub fn relay_step(event: StreamEvent) -> (action: StreamAction)
    ensures
        action@ == relayed_part(event@),
{
    match event {
        StreamEvent::Chunk(chunk) => {
            let room: usize = chunk.len();
            StreamAction::Pass { chunk, room }
        },
        StreamEvent::Failed => StreamAction::Finish,
        StreamEvent::End => StreamAction::Finish,
    }
}

/// What to do after a part of a request's body that goes to the local service. The stream gets
/// room for more at once.
pub fn intake_step(event: StreamEvent) -> (action: StreamAction)
    ensures
        action@ == taken_part(event@),
{
    match event {
        StreamEvent::Chunk(chunk) => {
            if chunk.is_empty() {
                StreamAction::Skip
            } else {
                relay_step(StreamEvent::Chunk(chunk))
            }
        },
        other => relay_step(other),
    }
}

/// The bytes of a run of events.
pub open spec fn stream_bytes(events: Seq<StreamEventView>) -> Seq<u8>
    decreases events.len(),
{
    if events.len() == 0 {
        Seq::empty()
    } else {
        stream_bytes(events.drop_last()) + match events.last() {
            StreamEventView::Chunk(b) => b,
            _ => Seq::empty(),
        }
    }
}

/// The bytes that a run of actions passes on.
pub open spec fn passed_bytes(actions: Seq<StreamActionView>) -> Seq<u8>
    decreases actions.len(),
{
    if actions.len() == 0 {
        Seq::empty()
    } else {
        passed_bytes(actions.drop_last()) + match actions.last() {
            StreamActionView::Pass { chunk, .. } => chunk,
            _ => Seq::empty(),
        }
    }
}

/// How much room a run of actions gives the stream.
pub open spec fn room_given(actions: Seq<StreamActionView>) -> nat
    decreases actions.len(),
{
    if actions.len() == 0 {
        0
    } else {
        room_given(actions.drop_last()) + match actions.last() {
            StreamActionView::Pass { room, .. } => room,
            _ => 0,
        }
    }
}

/// A body comes out of the tunnel as it went in, in both directions, and the stream is given
/// room for exactly what it brought.
pub proof fn law_bodies_leave_whole(events: Seq<StreamEventView>)
    ensures
        ({
            let out = events.map_values(|e: StreamEventView| relayed_part(e));
            &&& passed_bytes(out) == stream_bytes(events)
            &&& room_given(out) == stream_bytes(events).len()
        }),
        ({
            let out = events.map_values(|e: StreamEventView| taken_part(e));
            &&& passed_bytes(out) == stream_bytes(events)
            &&& room_given(out) == stream_bytes(events).len()
        }),
    decreases events.len(),
{
    let relayed = events.map_values(|e: StreamEventView| relayed_part(e));
    let taken = events.map_values(|e: StreamEventView| taken_part(e));
    if events.len() > 0 {
        let before = events.drop_last();
        law_bodies_leave_whole(before);
        assert(relayed.drop_last() =~= before.map_values(|e: StreamEventView| relayed_part(e)));
        assert(taken.drop_last() =~= before.map_values(|e: StreamEventView| taken_part(e)));
        assert(passed_bytes(relayed) =~= stream_bytes(events));
        assert(passed_bytes(taken) =~= stream_bytes(events));
    }
}

/// How many of the actions end the body.
pub open spec fn overs(actions: Seq<StreamActionView>) -> nat
    decreases actions.len(),
{
    if actions.len() == 0 {
        0
    } else {
        overs(actions.drop_last()) + if actions.last() is Finish {
            1nat
        } else {
            0
        }
    }
}

/// A body ends when its stream ends or breaks: exactly once, and after everything else.
pub proof fn law_bodies_are_over_once(events: Seq<StreamEventView>)
    requires
        events.len() > 0,
        !(events.last() is Chunk),
        forall|i: int| 0 <= i < events.len() - 1 ==> #[trigger] events[i] is Chunk,
    ensures
        ({
            let out = events.map_values(|e: StreamEventView| relayed_part(e));
            overs(out) == 1 && out.last() is Finish
        }),
        ({
            let out = events.map_values(|e: StreamEventView| taken_part(e));
            overs(out) == 1 && out.last() is Finish
        }),
{
    let relayed = events.map_values(|e: StreamEventView| relayed_part(e));
    let taken = events.map_values(|e: StreamEventView| taken_part(e));
    assert forall|i: int| 0 <= i < relayed.len() - 1 implies !(#[trigger] relayed.drop_last()[i]
        is Finish) by {
        assert(events[i] is Chunk);
    }
    assert forall|i: int| 0 <= i < taken.len() - 1 implies !(#[trigger] taken.drop_last()[i]
        is Finish) by {
        assert(events[i] is Chunk);
    }
    lemma_not_over(relayed.drop_last());
    lemma_not_over(taken.drop_last());
}

/// Actions of which none ends the body.
proof fn lemma_not_over(actions: Seq<StreamActionView>)
    requires
        forall|i: int| 0 <= i < actions.len() ==> !(#[trigger] actions[i] is Finish),
    ensures
        overs(actions) == 0,
    decreases actions.len(),
{
    if actions.len() > 0 {
        let before = actions.drop_last();
        assert forall|i: int| 0 <= i < before.len() implies !(#[trigger] before[i] is Finish) by {
            assert(before[i] == actions[i]);
        }
        lemma_not_over(before);
    }
}

/// What happened between a stream and the socket that its bytes are written to.
pub enum CopyEvent {
    /// The stream had bytes.
    Chunk(Bytes),
    /// The stream broke.
    Failed,
    /// The stream ended.
    End,
    /// The socket took the bytes, or did not.
    Written(bool),
}

/// What to do next for a stream whose bytes are written to a socket.
pub enum CopyAction {
    /// Write these bytes to the socket.
    Write(Bytes),
    /// Give the stream room for so many bytes more, and ask it for the next ones.
    Release(usize),
    /// Shut the socket down: all is done.
    Shutdown,
    /// Give up.
    Fail,
}

/// [`CopyEvent`] over plain bytes.
pub enum CopyEventView {
    Chunk(Seq<u8>),
    Failed,
    End,
    Written(bool),
}

/// [`CopyAction`] over plain bytes.
pub enum CopyActionView {
    Write(Seq<u8>),
    Release(nat),
    Shutdown,
    Fail,
}

impl View for CopyEvent {
    type V = CopyEventView;

    open spec fn view(&self) -> CopyEventView {
        match *self {
            CopyEvent::Chunk(b) => CopyEventView::Chunk(bytes_of(b)),
            CopyEvent::Failed => CopyEventView::Failed,
            CopyEvent::End => CopyEventView::End,
            CopyEvent::Written(ok) => CopyEventView::Written(ok),
        }
    }
}

impl View for CopyAction {
    type V = CopyActionView;

    open spec fn view(&self) -> CopyActionView {
        match *self {
            CopyAction::Write(b) => CopyActionView::Write(bytes_of(b)),
            CopyAction::Release(n) => CopyActionView::Release(n as nat),
            CopyAction::Shutdown => CopyActionView::Shutdown,
            CopyAction::Fail => CopyActionView::Fail,
        }
    }
}

/// A stream whose bytes are written to a socket: how many bytes it is owed room for, while
/// they are being written, and whether nothing is left to do.
pub struct Copier {
    owed: Option<usize>,
    over: bool,
}

/// [`Copier`] over plain numbers.
pub struct CopierView {
    pub owed: Option<nat>,
    pub over: bool,
}

impl View for Copier {
    type V = CopierView;

    closed spec fn view(&self) -> CopierView {
        CopierView {
            owed: match self.owed {
                Some(n) => Some(n as nat),
                None => None,
            },
            over: self.over,
        }
    }
}

/// A stream of which nothing was received.
pub open spec fn copier() -> CopierView {
    CopierView { owed: None, over: false }
}

impl CopierView {
    /// Whether `event` can follow the last action.
    pub open spec fn expects(self, event: CopyEventView) -> bool {
        !self.over && (event is Written) == (self.owed is Some)
    }

    /// The next state and action after `event`.
    pub open spec fn step(self, event: CopyEventView) -> (CopierView, CopyActionView) {
        match event {
            CopyEventView::Chunk(b) => if b.len() == 0 {
                (self, CopyActionView::Release(0))
            } else {
                (CopierView { owed: Some(b.len()), ..self }, CopyActionView::Write(b))
            },
            CopyEventView::Failed => (CopierView { over: true, ..self }, CopyActionView::Fail),
            CopyEventView::End => (CopierView { over: true, ..self }, CopyActionView::Shutdown),
            CopyEventView::Written(false) => (
                CopierView { owed: None, over: true },
                CopyActionView::Fail,
            ),
            CopyEventView::Written(true) => (
                CopierView { owed: None, ..self },
                CopyActionView::Release(self.owed.unwrap_or(0)),
            ),
        }
    }

    /// The state and the actions after a run of events.
    pub open spec fn run(self, events: Seq<CopyEventView>) -> (CopierView, Seq<CopyActionView>)
        decreases events.len(),
    {
        if events.len() == 0 {
            (self, Seq::empty())
        } else {
            let (mid, actions) = self.run(events.drop_last());
            let (last, action) = mid.step(events.last());
            (last, actions.push(action))
        }
    }

    /// Every event of the run was one that could follow.
    pub open spec fn admits(self, events: Seq<CopyEventView>) -> bool
        decreases events.len(),
    {
        events.len() == 0 || {
            &&& self.admits(events.drop_last())
            &&& self.run(events.drop_last()).0.expects(events.last())
        }
    }
}

impl Copier {
    /// A stream of which nothing was received.
    pub fn new() -> (r: Copier)
        ensures
            r@ == copier(),
    {
        Copier { owed: None, over: false }
    }
}

/// Decides what to do next to write what a stream receives to a socket. The stream gets room
/// for more only once the socket has taken what came before.
pub fn copy_h2_to_writer(copier: &mut Copier, event: CopyEvent) -> (action: CopyAction)
    requires
        old(copier)@.expects(event@),
    ensures
        (final(copier)@, action@) == old(copier)@.step(event@),
{
    match event {
        CopyEvent::Chunk(b) => {
            if b.is_empty() {
                CopyAction::Release(0)
            } else {
                copier.owed = Some(b.len());
                CopyAction::Write(b)
            }
        },
        CopyEvent::Failed => {
            copier.over = true;
            CopyAction::Fail
        },
        CopyEvent::End => {
            copier.over = true;
            CopyAction::Shutdown
        },
        CopyEvent::Written(ok) => {
            let owed: usize = match copier.owed {
                Some(n) => n,
                None => 0,
            };
            copier.owed = None;
            if ok {
                CopyAction::Release(owed)
            } else {
                copier.over = true;
                CopyAction::Fail
            }
        },
    }
}

/// The bytes that a run of events received.
pub open spec fn received_bytes(events: Seq<CopyEventView>) -> Seq<u8>
    decreases events.len(),
{
    if events.len() == 0 {
        Seq::empty()
    } else {
        received_bytes(events.drop_last()) + match events.last() {
            CopyEventView::Chunk(b) => b,
            _ => Seq::empty(),
        }
    }
}

/// The bytes that a run of actions writes.
pub open spec fn written_bytes(actions: Seq<CopyActionView>) -> Seq<u8>
    decreases actions.len(),
{
    if actions.len() == 0 {
        Seq::empty()
    } else {
        written_bytes(actions.drop_last()) + match actions.last() {
            CopyActionView::Write(b) => b,
            _ => Seq::empty(),
        }
    }
}

/// How much room a run of actions gives the stream.
pub open spec fn released(actions: Seq<CopyActionView>) -> nat
    decreases actions.len(),
{
    if actions.len() == 0 {
        0
    } else {
        released(actions.drop_last()) + match actions.last() {
            CopyActionView::Release(n) => n,
            _ => 0,
        }
    }
}

/// Whether the socket took everything it was given.
pub open spec fn all_written(events: Seq<CopyEventView>) -> bool {
    forall|i: int| 0 <= i < events.len() ==> #[trigger] events[i] != CopyEventView::Written(false)
}

/// What a stream receives is written as it came; and as long as the socket takes it, the
/// stream is given room for exactly what it received, but for what is being written.
pub proof fn law_copied_whole_and_room_given_back(events: Seq<CopyEventView>)
    requires
        copier().admits(events),
    ensures
        written_bytes(copier().run(events).1) == received_bytes(events),
        all_written(events) ==> released(copier().run(events).1)
            + copier().run(events).0.owed.unwrap_or(0) == received_bytes(
            events,
        ).len(),
    decreases events.len(),
{
    let start = copier();
    if events.len() > 0 {
        let before = events.drop_last();
        law_copied_whole_and_room_given_back(before);
        let (mid, actions) = start.run(before);
        let (last, action) = mid.step(events.last());
        assert(actions.push(action).drop_last() =~= actions);
        assert(written_bytes(actions.push(action)) =~= received_bytes(events));
        if all_written(events) {
            assert forall|i: int| 0 <= i < before.len() implies #[trigger] before[i]
                != CopyEventView::Written(false) by {
                assert(before[i] == events[i]);
            }
            assert(all_written(before));
            assert(events[events.len() - 1] == events.last());
        }
    }
}

/// The socket is shut down exactly when the stream ends, never after the stream or the socket
/// broke, and nothing comes after it.
pub proof fn law_socket_is_shut_with_the_stream(events: Seq<CopyEventView>, i: int)
    requires
        copier().admits(events),
        0 <= i < events.len(),
    ensures
        copier().run(events).1.len() == events.len(),
        copier().run(events).1[i] is Shutdown <==> events[i] is End,
        copier().run(events).1[i] is Shutdown ==> i == events.len() - 1,
        events[i] is Failed || events[i] == CopyEventView::Written(false) ==> i == events.len() - 1
            && copier().run(events).1[i] is Fail,
    decreases events.len(),
{
    let n = events.len() - 1;
    let before = events.drop_last();
    let (mid, actions) = copier().run(before);
    lemma_one_copy_action_each(before);
    if i < n {
        law_socket_is_shut_with_the_stream(before, i);
        assert(before[i] == events[i]);
        assert(copier().run(events).1[i] == actions[i]);
        if i == n - 1 {
            assert(before.last() == events[i]);
            let earlier = copier().run(before.drop_last());
            assert(copier().run(before) == (
                earlier.0.step(before.last()).0,
                earlier.1.push(earlier.0.step(before.last()).1),
            ));
        }
    }
}

/// A run has one action for each event.
proof fn lemma_one_copy_action_each(events: Seq<CopyEventView>)
    ensures
        copier().run(events).1.len() == events.len(),
    decreases events.len(),
{
    if events.len() > 0 {
        lemma_one_copy_action_each(events.drop_last());
    }
}

/// What came of reading from a socket, or of sending on what was read.
#[derive(Debug, Copy, Clone, PartialEq, Eq, Structural)]
pub enum ReadEvent {
    /// So many bytes were read; none means that the socket is at its end.
    Read(usize),
    /// The socket broke.
    Failed,
    /// The bytes were sent on, or could not be.
    Forwarded(bool),
}

/// [`ReadEvent`] over plain bytes: what was read, rather than how much of it.
pub enum ReadEventView {
    Read(Seq<u8>),
    Failed,
    Forwarded(bool),
}

/// An event and the buffer that was read into.
pub open spec fn read_event(buf: Seq<u8>, event: ReadEvent) -> ReadEventView {
    match event {
        ReadEvent::Read(n) => ReadEventView::Read(buf.take(n as int)),
        ReadEvent::Failed => ReadEventView::Failed,
        ReadEvent::Forwarded(ok) => ReadEventView::Forwarded(ok),
    }
}

/// What to do next for a socket whose bytes are sent into a stream.
pub enum ReadAction {
    /// Send these bytes into the stream.
    Forward(Bytes),
    /// End the stream: all is done.
    EndStream,
    /// Read from the socket.
    ReadMore,
    /// Give up.
    Fail,
}

/// [`ReadAction`] over plain bytes.
pub enum ReadActionView {
    Forward(Seq<u8>),
    EndStream,
    ReadMore,
    Fail,
}

impl View for ReadAction {
    type V = ReadActionView;

    open spec fn view(&self) -> ReadActionView {
        match *self {
            ReadAction::Forward(b) => ReadActionView::Forward(bytes_of(b)),
            ReadAction::EndStream => ReadActionView::EndStream,
            ReadAction::ReadMore => ReadActionView::ReadMore,
            ReadAction::Fail => ReadActionView::Fail,
        }
    }
}

/// Where the copying of a socket into a stream stands.
#[derive(Debug, Copy, Clone, PartialEq, Eq, Structural)]
pub enum ReadPhase {
    /// The socket is being read.
    Reading,
    /// What was read is being sent on.
    Forwarding,
    /// Nothing is left to do.
    Stopped,
}

impl ReadPhase {
    /// Whether `event` can follow the last action.
    pub open spec fn expects(self, event: ReadEventView) -> bool {
        match self {
            ReadPhase::Reading => event is Read || event is Failed,
            ReadPhase::Forwarding => event is Forwarded,
            ReadPhase::Stopped => false,
        }
    }

    /// The next phase and action after `event`.
    pub open spec fn step(self, event: ReadEventView) -> (ReadPhase, ReadActionView) {
        match event {
            ReadEventView::Read(b) => if b.len() == 0 {
                (ReadPhase::Stopped, ReadActionView::EndStream)
            } else {
                (ReadPhase::Forwarding, ReadActionView::Forward(b))
            },
            ReadEventView::Failed => (ReadPhase::Stopped, ReadActionView::Fail),
            ReadEventView::Forwarded(true) => (ReadPhase::Reading, ReadActionView::ReadMore),
            ReadEventView::Forwarded(false) => (ReadPhase::Stopped, ReadActionView::Fail),
        }
    }

    /// The phase and the actions after a run of events.
    pub open spec fn run(self, events: Seq<ReadEventView>) -> (ReadPhase, Seq<ReadActionView>)
        decreases events.len(),
    {
        if events.len() == 0 {
            (self, Seq::empty())
        } else {
            let (mid, actions) = self.run(events.drop_last());
            let (last, action) = mid.step(events.last());
            (last, actions.push(action))
        }
    }

    /// Every event of the run was one that could follow.
    pub open spec fn admits(self, events: Seq<ReadEventView>) -> bool
        decreases events.len(),
    {
        events.len() == 0 || {
            &&& self.admits(events.drop_last())
            &&& self.run(events.drop_last()).0.expects(events.last())
        }
    }
}

/// Decides what to do next to send what is read from a socket into a stream. `buf` is what
/// was read into.
pub fn copy_reader_to_h2(phase: &mut ReadPhase, buf: &[u8], event: ReadEvent) -> (action:
    ReadAction)
    requires
        event matches ReadEvent::Read(n) ==> n <= buf@.len(),
        old(phase).expects(read_event(buf@, event)),
    ensures
        (*final(phase), action@) == old(phase).step(read_event(buf@, event)),
{
    match event {
        ReadEvent::Read(n) => {
            if n == 0 {
                *phase = ReadPhase::Stopped;
                ReadAction::EndStream
            } else {
                let read = vstd::slice::slice_subrange(buf, 0, n);
                proof {
                    assert(read@ =~= buf@.take(n as int));
                }
                *phase = ReadPhase::Forwarding;
                ReadAction::Forward(Bytes::copy_from_slice(read))
            }
        },
        ReadEvent::Failed => {
            *phase = ReadPhase::Stopped;
            ReadAction::Fail
        },
        ReadEvent::Forwarded(ok) => if ok {
            *phase = ReadPhase::Reading;
            ReadAction::ReadMore
        } else {
            *phase = ReadPhase::Stopped;
            ReadAction::Fail
        },
    }
}

/// The bytes that a run of events read.
pub open spec fn read_bytes(events: Seq<ReadEventView>) -> Seq<u8>
    decreases events.len(),
{
    if events.len() == 0 {
        Seq::empty()
    } else {
        read_bytes(events.drop_last()) + match events.last() {
            ReadEventView::Read(b) => b,
            _ => Seq::empty(),
        }
    }
}

/// The bytes that a run of actions sends into the stream.
pub open spec fn sent_on(actions: Seq<ReadActionView>) -> Seq<u8>
    decreases actions.len(),
{
    if actions.len() == 0 {
        Seq::empty()
    } else {
        sent_on(actions.drop_last()) + match actions.last() {
            ReadActionView::Forward(b) => b,
            _ => Seq::empty(),
        }
    }
}

/// What is read from a socket is sent into the stream as it came.
pub proof fn law_read_is_sent_on(events: Seq<ReadEventView>)
    ensures
        sent_on(ReadPhase::Reading.run(events).1) == read_bytes(events),
    decreases events.len(),
{
    if events.len() > 0 {
        let before = events.drop_last();
        law_read_is_sent_on(before);
        let (mid, actions) = ReadPhase::Reading.run(before);
        let (last, action) = mid.step(events.last());
        assert(actions.push(action).drop_last() =~= actions);
        assert(sent_on(actions.push(action)) =~= read_bytes(events));
    }
}

/// The stream is ended exactly when the socket is at its end, never after the socket or the
/// stream broke, and nothing comes after it.
pub proof fn law_stream_ends_with_the_socket(events: Seq<ReadEventView>, i: int)
    requires
        ReadPhase::Reading.admits(events),
        0 <= i < events.len(),
    ensures
        ReadPhase::Reading.run(events).1.len() == events.len(),
        ReadPhase::Reading.run(events).1[i] is EndStream <==> (events[i] matches ReadEventView::Read(
            b,
        ) && b.len() == 0),
        ReadPhase::Reading.run(events).1[i] is EndStream ==> i == events.len() - 1,
        events[i] is Failed || events[i] == ReadEventView::Forwarded(false) ==> i == events.len()
            - 1 && ReadPhase::Reading.run(events).1[i] is Fail,
    decreases events.len(),
{
    let start = ReadPhase::Reading;
    let n = events.len() - 1;
    let before = events.drop_last();
    let (mid, actions) = start.run(before);
    lemma_one_action_each(before);
    if i < n {
        law_stream_ends_with_the_socket(before, i);
        assert(before[i] == events[i]);
        assert(start.run(events).1[i] == actions[i]);
        if i == n - 1 {
            assert(before.last() == events[i]);
            let earlier = start.run(before.drop_last());
            assert(start.run(before) == (
                earlier.0.step(before.last()).0,
                earlier.1.push(earlier.0.step(before.last()).1),
            ));
        }
    }
}

/// A run has one action for each event.
proof fn lemma_one_action_each(events: Seq<ReadEventView>)
    ensures
        ReadPhase::Reading.run(events).1.len() == events.len(),
    decreases events.len(),
{
    if events.len() > 0 {
        lemma_one_action_each(events.drop_last());
    }
}

/// Each part of a body that goes into the tunnel is sent as it is, unless it has no bytes; other
/// frames are passed over. Only the end of the body, or its breaking off, ends anything.
pub proof fn law_parts_go_in(part: Seq<u8>)
    ensures
        part.len() > 0 ==> uploaded(BodyEventView::Data(part)) == BodyActionView::Send(part),
        part.len() > 0 ==> downloaded(BodyEventView::Data(part)) == BodyActionView::Send(part),
        part.len() == 0 ==> uploaded(BodyEventView::Data(part)) is Skip,
        part.len() == 0 ==> downloaded(BodyEventView::Data(part)) is Skip,
        uploaded(BodyEventView::Other) is Skip,
        downloaded(BodyEventView::Other) is Skip,
        uploaded(BodyEventView::End) is Finish,
        downloaded(BodyEventView::End) is Finish,
        uploaded(BodyEventView::Failed) is Finish,
        downloaded(BodyEventView::Failed) is Abort,
{
}

/// Each part of a body that comes out of the tunnel is passed on as it is, and the stream is given
/// room for as many bytes. A request's parts without bytes are left out.
pub proof fn law_parts_come_out(part: Seq<u8>)
    ensures
        relayed_part(StreamEventView::Chunk(part)) == (StreamActionView::Pass {
            chunk: part,
            room: part.len(),
        }),
        part.len() > 0 ==> taken_part(StreamEventView::Chunk(part)) == (StreamActionView::Pass {
            chunk: part,
            room: part.len(),
        }),
        part.len() == 0 ==> taken_part(StreamEventView::Chunk(part)) is Skip,
        relayed_part(StreamEventView::End) is Finish,
        relayed_part(StreamEventView::Failed) is Finish,
        taken_part(StreamEventView::End) is Finish,
        taken_part(StreamEventView::Failed) is Finish,
{
}

/// Copying to a socket never gives up by itself: it fails exactly when the stream or the socket
/// breaks. Every chunk with bytes is written as it is, and room for it is given back once the
/// socket has taken it.
pub proof fn law_copying_never_gives_up(events: Seq<CopyEventView>)
    requires
        copier().admits(events),
        events.len() > 0,
    ensures
        ({
            let action = copier().run(events).1.last();
            &&& action is Fail <==> events.last() is Failed || events.last()
                == CopyEventView::Written(false)
            &&& match events.last() {
                CopyEventView::Chunk(b) => if b.len() > 0 {
                    action == CopyActionView::Write(b)
                } else {
                    action == CopyActionView::Release(0)
                },
                CopyEventView::Written(true) => events.len() > 1 && (events[events.len() - 2]
                    matches CopyEventView::Chunk(b) && action == CopyActionView::Release(b.len())),
                CopyEventView::End => action is Shutdown,
                _ => true,
            }
        }),
{
    let before = events.drop_last();
    if events.last() == CopyEventView::Written(true) && before.len() > 0 {
        assert(before.last() == events[events.len() - 2]);
        lemma_owes_nothing_before_writing(before);
    }
}

/// What is owed is what is being written.
proof fn lemma_owes_nothing_before_writing(events: Seq<CopyEventView>)
    requires
        copier().admits(events),
        events.len() > 0,
    ensures
        copier().run(events).0.owed matches Some(n) ==> (events.last() matches CopyEventView::Chunk(
            b,
        ) && b.len() == n),
    decreases events.len(),
{
    let before = events.drop_last();
    if before.len() > 0 {
        lemma_owes_nothing_before_writing(before);
    }
}

/// Copying to a socket takes every answer: of the socket when it was given bytes, and of the
/// stream otherwise.
pub proof fn law_copier_takes_every_answer(
    events: Seq<CopyEventView>,
    chunk: Seq<u8>,
    ok: bool,
)
    requires
        copier().admits(events),
    ensures
        ({
            let asks_stream = events.len() == 0 || copier().run(events).1.last() is Release;
            let state = copier().run(events).0;
            &&& asks_stream ==> {
                &&& state.expects(CopyEventView::Chunk(chunk))
                &&& state.expects(CopyEventView::Failed)
                &&& state.expects(CopyEventView::End)
            }
            &&& events.len() > 0 && copier().run(events).1.last() is Write ==> state.expects(
                CopyEventView::Written(ok),
            )
        }),
    decreases events.len(),
{
    if events.len() > 0 {
        law_copier_takes_every_answer(events.drop_last(), chunk, ok);
    }
}

/// Copying from a socket never gives up by itself: it fails exactly when the socket or the stream
/// breaks. Whatever is read is sent on as it is, and when that is done the socket is read again.
pub proof fn law_reading_never_gives_up(phase: ReadPhase, event: ReadEventView)
    requires
        phase.expects(event),
    ensures
        phase.step(event).1 is Fail <==> event is Failed || event == ReadEventView::Forwarded(false),
        match event {
            ReadEventView::Read(b) => {
                &&& b.len() > 0 ==> phase.step(event).1 == ReadActionView::Forward(b)
                &&& b.len() == 0 ==> phase.step(event).1 is EndStream
            },
            ReadEventView::Forwarded(true) => phase.step(event).1 is ReadMore,
            _ => true,
        },
{
}

/// Copying from a socket takes every answer: of the socket when it is to be read, and of the
/// stream when bytes are to be sent on.
pub proof fn law_reader_takes_every_answer(
    phase: ReadPhase,
    event: ReadEventView,
    read: Seq<u8>,
    ok: bool,
)
    requires
        phase.expects(event),
    ensures
        ReadPhase::Reading.expects(ReadEventView::Read(read)),
        ReadPhase::Reading.expects(ReadEventView::Failed),
        phase.step(event).1 is ReadMore ==> phase.step(event).0 == ReadPhase::Reading,
        phase.step(event).1 is Forward ==> phase.step(event).0.expects(
            ReadEventView::Forwarded(ok),
        ),
        phase.step(event).1 is EndStream || phase.step(event).1 is Fail ==> phase.step(event).0
            == ReadPhase::Stopped,
{
}

/// What was read is what stands at the front of the buffer.
pub proof fn law_read_from_the_front(buf: Seq<u8>, n: usize, ok: bool)
    requires
        n <= buf.len(),
    ensures
        read_event(buf, ReadEvent::Read(n)) == ReadEventView::Read(buf.subrange(0, n as int)),
        read_event(buf, ReadEvent::Failed) is Failed,
        read_event(buf, ReadEvent::Forwarded(ok)) == ReadEventView::Forwarded(ok),
{
    assert(buf.take(n as int) =~= buf.subrange(0, n as int));
}

/// What happens to bodies, and what to do about it, is seen by contracts as it is.
pub proof fn law_bodies_are_seen_whole(
    e: BodyEvent,
    a: BodyAction,
    se: StreamEvent,
    sa: StreamAction,
)
    ensures
        match e {
            BodyEvent::Data(b) => e@ == BodyEventView::Data(bytes_of(b)),
            BodyEvent::Other => e@ is Other,
            BodyEvent::Failed => e@ is Failed,
            BodyEvent::End => e@ is End,
        },
        match a {
            BodyAction::Send(b) => a@ == BodyActionView::Send(bytes_of(b)),
            BodyAction::Skip => a@ is Skip,
            BodyAction::Finish => a@ is Finish,
            BodyAction::Abort => a@ is Abort,
        },
        match se {
            StreamEvent::Chunk(b) => se@ == StreamEventView::Chunk(bytes_of(b)),
            StreamEvent::Failed => se@ is Failed,
            StreamEvent::End => se@ is End,
        },
        match sa {
            StreamAction::Pass { chunk, room } => sa@ == (StreamActionView::Pass {
                chunk: bytes_of(chunk),
                room: room as nat,
            }),
            StreamAction::Skip => sa@ is Skip,
            StreamAction::Finish => sa@ is Finish,
        },
{
}

/// What happens between streams and sockets, and what to do about it, is seen as it is.
pub proof fn law_copying_is_seen_whole(e: CopyEvent, a: CopyAction, r: ReadAction)
    ensures
        match e {
            CopyEvent::Chunk(b) => e@ == CopyEventView::Chunk(bytes_of(b)),
            CopyEvent::Failed => e@ is Failed,
            CopyEvent::End => e@ is End,
            CopyEvent::Written(ok) => e@ == CopyEventView::Written(ok),
        },
        match a {
            CopyAction::Write(b) => a@ == CopyActionView::Write(bytes_of(b)),
            CopyAction::Release(n) => a@ == CopyActionView::Release(n as nat),
            CopyAction::Shutdown => a@ is Shutdown,
            CopyAction::Fail => a@ is Fail,
        },
        match r {
            ReadAction::Forward(b) => r@ == ReadActionView::Forward(bytes_of(b)),
            ReadAction::EndStream => r@ is EndStream,
            ReadAction::ReadMore => r@ is ReadMore,
            ReadAction::Fail => r@ is Fail,
        },
{
}

} // verus!
