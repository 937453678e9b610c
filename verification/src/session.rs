//! The session broker: one slot per logical exchange, each holding two
//! bounded FIFO byte-chunk channels. The upstream channel carries the
//! body being sent, the downstream channel the body being received;
//! both sides address a session by a small integer id. Freed slots are
//! reused, lowest index first, so long-running processes stay bounded.

use vstd::prelude::*;

verus! {

/// How many chunks either channel of a session buffers.
pub const CHANNEL_CAPACITY: usize = 32;

/// A claim on a session went wrong: the id was never reserved, or the
/// session was already claimed once.
#[derive(Debug, Clone, Copy, PartialEq, Eq, Structural)]
pub enum SessionError {
    Unestablished,
    Consumed,
}

impl SessionError {
    /// A short description of the failure.
    pub fn message(&self) -> (r: &'static str)
        ensures
            self is Unestablished ==> r@ == "session is not established"@,
            self is Consumed ==> r@ == "session is already consumed"@,
    {
        match self {
            SessionError::Unestablished => "session is not established",
            SessionError::Consumed => "session is already consumed",
        }
    }
}

/// A channel operation named a session id that no slot holds.
#[derive(Debug, Clone, Copy, PartialEq, Eq, Structural)]
pub struct InvalidSessionId(pub usize);

/// One direction of a session: a bounded FIFO of byte chunks, and a
/// flag that marks the channel as closed for further pushes.
pub struct Channel {
    queue: Vec<Vec<u8>>,
    capacity: usize,
    closed: bool,
}

/// The mathematical value of a [`Channel`].
#[verifier::ext_equal]
pub struct ChannelModel {
    pub queue: Seq<Seq<u8>>,
    pub capacity: nat,
    pub closed: bool,
}

impl View for Channel {
    type V = ChannelModel;

    closed spec fn view(&self) -> ChannelModel {
        ChannelModel {
            queue: self.queue.deep_view(),
            capacity: self.capacity as nat,
            closed: self.closed,
        }
    }
}

impl DeepView for Channel {
    type V = ChannelModel;

    open spec fn deep_view(&self) -> ChannelModel {
        self.view()
    }
}

/// What a push did: the chunk was enqueued, or it is handed back
/// because the channel is full (try again later) or closed.
pub enum PushOutcome {
    Accepted,
    Full(Vec<u8>),
    Closed(Vec<u8>),
}

/// The mathematical value of a [`PushOutcome`].
pub enum PushView {
    Accepted,
    Full(Seq<u8>),
    Closed(Seq<u8>),
}

impl View for PushOutcome {
    type V = PushView;

    open spec fn view(&self) -> PushView {
        match self {
            PushOutcome::Accepted => PushView::Accepted,
            PushOutcome::Full(c) => PushView::Full(c@),
            PushOutcome::Closed(c) => PushView::Closed(c@),
        }
    }
}

/// What a pop found: the next chunk, nothing yet on a channel that is
/// still open, or the end of a closed and drained channel.
pub enum PopOutcome {
    Chunk(Vec<u8>),
    NoContentYet,
    Ended,
}

/// The mathematical value of a [`PopOutcome`].
pub enum PopView {
    Chunk(Seq<u8>),
    NoContentYet,
    Ended,
}

impl View for PopOutcome {
    type V = PopView;

    open spec fn view(&self) -> PopView {
        match self {
            PopOutcome::Chunk(c) => PopView::Chunk(c@),
            PopOutcome::NoContentYet => PopView::NoContentYet,
            PopOutcome::Ended => PopView::Ended,
        }
    }
}

/// A channel that holds nothing, is open, and buffers `cap` chunks.
pub open spec fn fresh_channel(cap: nat) -> ChannelModel {
    ChannelModel { queue: Seq::empty(), capacity: cap, closed: true == false }
}

/// One push against a channel: enqueued if the channel is open and has
/// room; otherwise the channel is unchanged and the chunk comes back.
pub open spec fn spec_push(c: ChannelModel, chunk: Seq<u8>) -> (PushView, ChannelModel) {
    if c.closed {
        (PushView::Closed(chunk), c)
    } else if c.queue.len() >= c.capacity {
        (PushView::Full(chunk), c)
    } else {
        (PushView::Accepted, ChannelModel { queue: c.queue.push(chunk), ..c })
    }
}

/// One pop against a channel: the oldest chunk if one is buffered
/// (whether or not the channel is closed meanwhile), `Ended` once a
/// closed channel is drained, and `NoContentYet` on an open, empty
/// channel. A pop never blocks and never fails.
pub open spec fn spec_pop(c: ChannelModel) -> (PopView, ChannelModel) {
    if c.queue.len() > 0 {
        (PopView::Chunk(c.queue[0]), ChannelModel { queue: c.queue.drop_first(), ..c })
    } else if c.closed {
        (PopView::Ended, c)
    } else {
        (PopView::NoContentYet, c)
    }
}

/// Closing a channel: no more pushes; buffered chunks stay readable.
pub open spec fn spec_close(c: ChannelModel) -> ChannelModel {
    ChannelModel { closed: true, ..c }
}

impl Channel {
    /// A fresh open channel buffering at most `capacity` chunks.
    pub fn new(capacity: usize) -> (r: Self)
        ensures
            r@ == fresh_channel(capacity as nat),
    {
        let r = Channel { queue: Vec::new(), capacity, closed: false };
        proof {
            assert(r@.queue =~~= fresh_channel(capacity as nat).queue);
        }
        r
    }

    /// Enqueues `chunk`, or hands it back if the channel is closed or
    /// full. A full channel is the only backpressure signal.
    pub fn push(&mut self, chunk: Vec<u8>) -> (r: PushOutcome)
        ensures
            (r@, final(self)@) == spec_push(old(self)@, chunk@),
    {
        if self.closed {
            PushOutcome::Closed(chunk)
        } else if self.queue.len() >= self.capacity {
            PushOutcome::Full(chunk)
        } else {
            let ghost prev = self.queue.deep_view();
            self.queue.push(chunk);
            proof {
                assert(self.queue.deep_view() =~~= prev.push(chunk@));
            }
            PushOutcome::Accepted
        }
    }

    /// Dequeues the oldest chunk; reports `NoContentYet` on an open,
    /// empty channel and `Ended` on a closed, drained one.
    pub fn pop(&mut self) -> (r: PopOutcome)
        ensures
            (r@, final(self)@) == spec_pop(old(self)@),
    {
        if self.queue.len() > 0 {
            let ghost prev = self.queue.deep_view();
            let chunk = self.queue.remove(0);
            proof {
                assert(self.queue.deep_view() =~~= prev.drop_first());
                assert(chunk@ =~~= prev[0]);
            }
            PopOutcome::Chunk(chunk)
        } else if self.closed {
            PopOutcome::Ended
        } else {
            PopOutcome::NoContentYet
        }
    }

    /// Closes the channel for pushes; buffered chunks stay readable.
    pub fn close(&mut self)
        ensures
            final(self)@ == spec_close(old(self)@),
    {
        self.closed = true;
    }

    /// Whether the channel has been closed.
    pub fn is_closed(&self) -> (r: bool)
        ensures
            r == self@.closed,
    {
        self.closed
    }

    /// How many chunks are buffered.
    pub fn buffered(&self) -> (r: usize)
        ensures
            r == self@.queue.len(),
    {
        self.queue.len()
    }
}

/// Whether a session may still be claimed, or has been claimed once.
#[derive(Debug, Clone, Copy, PartialEq, Eq, Structural)]
pub enum SessionState {
    Open,
    Consumed,
}

/// One logical exchange: a claim state and the two channels.
pub struct Session {
    state: SessionState,
    upstream: Channel,
    downstream: Channel,
}

/// The mathematical value of a [`Session`].
#[verifier::ext_equal]
pub struct SessionModel {
    pub state: SessionState,
    pub upstream: ChannelModel,
    pub downstream: ChannelModel,
}

impl View for Session {
    type V = SessionModel;

    closed spec fn view(&self) -> SessionModel {
        SessionModel { state: self.state, upstream: self.upstream@, downstream: self.downstream@ }
    }
}

impl DeepView for Session {
    type V = SessionModel;

    open spec fn deep_view(&self) -> SessionModel {
        self.view()
    }
}

/// The session a reservation creates: open, both channels fresh.
pub open spec fn fresh_session() -> SessionModel {
    SessionModel {
        state: SessionState::Open,
        upstream: fresh_channel(CHANNEL_CAPACITY as nat),
        downstream: fresh_channel(CHANNEL_CAPACITY as nat),
    }
}

impl Session {
    /// The session a reservation stores into its slot.
    fn fresh() -> (r: Session)
        ensures
            r@ == fresh_session(),
    {
        let r = Session {
            state: SessionState::Open,
            upstream: Channel::new(CHANNEL_CAPACITY),
            downstream: Channel::new(CHANNEL_CAPACITY),
        };
        proof {
            assert(r@ =~~= fresh_session());
        }
        r
    }
}

/// Whether `id` addresses a live slot.
pub open spec fn spec_has(slots: Seq<Option<SessionModel>>, id: int) -> bool {
    0 <= id < slots.len() && slots[id] is Some
}

/// One claim: the first claim of an open session consumes it; a second
/// claim fails with `Consumed`; an id without a live slot fails with
/// `Unestablished`. Nothing else changes.
pub open spec fn spec_claim(slots: Seq<Option<SessionModel>>, id: int) -> (Result<
    (),
    SessionError,
>, Seq<Option<SessionModel>>) {
    if spec_has(slots, id) {
        let s = slots[id]->Some_0;
        if s.state is Open {
            (
                Ok(()),
                slots.update(id, Some(SessionModel { state: SessionState::Consumed, ..s })),
            )
        } else {
            (Err(SessionError::Consumed), slots)
        }
    } else {
        (Err(SessionError::Unestablished), slots)
    }
}

/// The slot table of all sessions, addressed by integer ids.
pub struct SessionBroker {
    slots: Vec<Option<Session>>,
}

impl View for SessionBroker {
    type V = Seq<Option<SessionModel>>;

    closed spec fn view(&self) -> Seq<Option<SessionModel>> {
        self.slots.deep_view()
    }
}

impl SessionBroker {
    /// A broker with no sessions.
    pub fn new() -> (r: Self)
        ensures
            r@ =~= Seq::<Option<SessionModel>>::empty(),
    {
        let r = SessionBroker { slots: Vec::new() };
        proof {
            assert(r@ =~~= Seq::<Option<SessionModel>>::empty());
        }
        r
    }

    /// Allocates a slot for a new open session with two fresh channels
    /// and returns its id: the lowest freed index if any slot is free,
    /// else the table grows by one.
    pub fn reserve(&mut self) -> (id: usize)
        ensures
            id < final(self)@.len(),
            forall|j: int| 0 <= j < id ==> old(self)@[j] is Some,
            id <= old(self)@.len(),
            id < old(self)@.len() ==> old(self)@[id as int] is None && final(self)@ == old(
                self,
            )@.update(id as int, Some(fresh_session())),
            id == old(self)@.len() ==> final(self)@ == old(self)@.push(Some(fresh_session())),
    {
        let n = self.slots.len();
        let mut i: usize = 0;
        while i < n
            invariant
                i <= n,
                n == self@.len(),
                self@ == old(self)@,
                forall|j: int| 0 <= j < i ==> self@[j] is Some,
            decreases n - i,
        {
            let free = match &self.slots[i] {
                Option::None => true,
                Option::Some(_) => false,
            };
            if free {
                let ghost prev = self.slots.deep_view();
                self.slots.set(i, Some(Session::fresh()));
                proof {
                    assert(self.slots.deep_view() =~~= prev.update(
                        i as int,
                        Some(fresh_session()),
                    ));
                }
                return i;
            }
            i = i + 1;
        }
        let ghost prev = self.slots.deep_view();
        self.slots.push(Some(Session::fresh()));
        proof {
            assert(self.slots.deep_view() =~~= prev.push(Some(fresh_session())));
        }
        n
    }

    /// Claims the session `id`, as [`spec_claim`] says: exactly the
    /// first claim after a reservation succeeds.
    pub fn claim(&mut self, id: usize) -> (r: Result<(), SessionError>)
        ensures
            (r, final(self)@) == spec_claim(old(self)@, id as int),
    {
        if id >= self.slots.len() {
            return Err(SessionError::Unestablished);
        }
        let ghost prev = self.slots.deep_view();
        let slot = self.slots.remove(id);
        match slot {
            Option::None => {
                self.slots.insert(id, Option::None);
                proof {
                    assert(self.slots.deep_view() =~~= prev);
                }
                Err(SessionError::Unestablished)
            },
            Option::Some(mut s) => {
                match s.state {
                    SessionState::Open => {
                        s.state = SessionState::Consumed;
                        self.slots.insert(id, Option::Some(s));
                        proof {
                            assert(self.slots.deep_view() =~~= prev.update(
                                id as int,
                                Some(
                                    SessionModel {
                                        state: SessionState::Consumed,
                                        ..prev[id as int]->Some_0
                                    },
                                ),
                            ));
                        }
                        Ok(())
                    },
                    SessionState::Consumed => {
                        self.slots.insert(id, Option::Some(s));
                        proof {
                            assert(self.slots.deep_view() =~~= prev);
                        }
                        Err(SessionError::Consumed)
                    },
                }
            },
        }
    }

    /// Whether `id` addresses a live session.
    pub fn has_session(&self, id: usize) -> (r: bool)
        ensures
            r == spec_has(self@, id as int),
    {
        id < self.slots.len() && match &self.slots[id] {
            Option::Some(_) => true,
            Option::None => false,
        }
    }

    /// Enqueues `chunk` onto the upstream channel of session `id`: the
    /// boundary protocol pushing a piece of the outgoing request body.
    pub fn push_upstream(&mut self, id: usize, chunk: Vec<u8>) -> (r: Result<
        PushOutcome,
        InvalidSessionId,
    >)
        ensures
            !spec_has(old(self)@, id as int) ==> r == Err::<PushOutcome, InvalidSessionId>(
                InvalidSessionId(id),
            ) && final(self)@ == old(self)@,
            spec_has(old(self)@, id as int) ==> ({
                let s = old(self)@[id as int]->Some_0;
                let (pr, c2) = spec_push(s.upstream, chunk@);
                &&& r matches Ok(o) && o@ == pr
                &&& final(self)@ == old(self)@.update(
                    id as int,
                    Some(SessionModel { upstream: c2, ..s }),
                )
            }),
    {
        if id >= self.slots.len() {
            return Err(InvalidSessionId(id));
        }
        let ghost prev = self.slots.deep_view();
        let slot = self.slots.remove(id);
        match slot {
            Option::None => {
                self.slots.insert(id, Option::None);
                proof {
                    assert(self.slots.deep_view() =~~= prev);
                }
                Err(InvalidSessionId(id))
            },
            Option::Some(mut s) => {
                let out = s.upstream.push(chunk);
                self.slots.insert(id, Option::Some(s));
                proof {
                    let m = prev[id as int]->Some_0;
                    assert(self.slots.deep_view() =~~= prev.update(
                        id as int,
                        Some(SessionModel { upstream: spec_push(m.upstream, chunk@).1, ..m }),
                    ));
                }
                Ok(out)
            },
        }
    }

    /// Dequeues the next outgoing-body chunk of session `id`: the
    /// transport reading the request body fed by the protocol.
    pub fn pop_upstream(&mut self, id: usize) -> (r: Result<PopOutcome, InvalidSessionId>)
        ensures
            !spec_has(old(self)@, id as int) ==> r == Err::<PopOutcome, InvalidSessionId>(
                InvalidSessionId(id),
            ) && final(self)@ == old(self)@,
            spec_has(old(self)@, id as int) ==> ({
                let s = old(self)@[id as int]->Some_0;
                let (pr, c2) = spec_pop(s.upstream);
                &&& r matches Ok(o) && o@ == pr
                &&& final(self)@ == old(self)@.update(
                    id as int,
                    Some(SessionModel { upstream: c2, ..s }),
                )
            }),
    {
        if id >= self.slots.len() {
            return Err(InvalidSessionId(id));
        }
        let ghost prev = self.slots.deep_view();
        let slot = self.slots.remove(id);
        match slot {
            Option::None => {
                self.slots.insert(id, Option::None);
                proof {
                    assert(self.slots.deep_view() =~~= prev);
                }
                Err(InvalidSessionId(id))
            },
            Option::Some(mut s) => {
                let out = s.upstream.pop();
                self.slots.insert(id, Option::Some(s));
                proof {
                    let m = prev[id as int]->Some_0;
                    assert(self.slots.deep_view() =~~= prev.update(
                        id as int,
                        Some(SessionModel { upstream: spec_pop(m.upstream).1, ..m }),
                    ));
                }
                Ok(out)
            },
        }
    }

    /// Closes the upstream channel of session `id`, so the outgoing
    /// body reader observes end-of-stream after draining it.
    pub fn close_upstream(&mut self, id: usize) -> (r: Result<(), InvalidSessionId>)
        ensures
            !spec_has(old(self)@, id as int) ==> r == Err::<(), InvalidSessionId>(
                InvalidSessionId(id),
            ) && final(self)@ == old(self)@,
            spec_has(old(self)@, id as int) ==> ({
                let s = old(self)@[id as int]->Some_0;
                &&& r is Ok
                &&& final(self)@ == old(self)@.update(
                    id as int,
                    Some(SessionModel { upstream: spec_close(s.upstream), ..s }),
                )
            }),
    {
        if id >= self.slots.len() {
            return Err(InvalidSessionId(id));
        }
        let ghost prev = self.slots.deep_view();
        let slot = self.slots.remove(id);
        match slot {
            Option::None => {
                self.slots.insert(id, Option::None);
                proof {
                    assert(self.slots.deep_view() =~~= prev);
                }
                Err(InvalidSessionId(id))
            },
            Option::Some(mut s) => {
                s.upstream.close();
                self.slots.insert(id, Option::Some(s));
                proof {
                    let m = prev[id as int]->Some_0;
                    assert(self.slots.deep_view() =~~= prev.update(
                        id as int,
                        Some(SessionModel { upstream: spec_close(m.upstream), ..m }),
                    ));
                }
                Ok(())
            },
        }
    }

    /// Enqueues `chunk` onto the downstream channel of session `id`:
    /// the drain task handing over a piece of the response body.
    pub fn push_downstream(&mut self, id: usize, chunk: Vec<u8>) -> (r: Result<
        PushOutcome,
        InvalidSessionId,
    >)
        ensures
            !spec_has(old(self)@, id as int) ==> r == Err::<PushOutcome, InvalidSessionId>(
                InvalidSessionId(id),
            ) && final(self)@ == old(self)@,
            spec_has(old(self)@, id as int) ==> ({
                let s = old(self)@[id as int]->Some_0;
                let (pr, c2) = spec_push(s.downstream, chunk@);
                &&& r matches Ok(o) && o@ == pr
                &&& final(self)@ == old(self)@.update(
                    id as int,
                    Some(SessionModel { downstream: c2, ..s }),
                )
            }),
    {
        if id >= self.slots.len() {
            return Err(InvalidSessionId(id));
        }
        let ghost prev = self.slots.deep_view();
        let slot = self.slots.remove(id);
        match slot {
            Option::None => {
                self.slots.insert(id, Option::None);
                proof {
                    assert(self.slots.deep_view() =~~= prev);
                }
                Err(InvalidSessionId(id))
            },
            Option::Some(mut s) => {
                let out = s.downstream.push(chunk);
                self.slots.insert(id, Option::Some(s));
                proof {
                    let m = prev[id as int]->Some_0;
                    assert(self.slots.deep_view() =~~= prev.update(
                        id as int,
                        Some(SessionModel { downstream: spec_push(m.downstream, chunk@).1, ..m }),
                    ));
                }
                Ok(out)
            },
        }
    }

    /// Dequeues the next received-body chunk of session `id`: the
    /// boundary protocol's non-blocking pop.
    pub fn pop_downstream(&mut self, id: usize) -> (r: Result<PopOutcome, InvalidSessionId>)
        ensures
            !spec_has(old(self)@, id as int) ==> r == Err::<PopOutcome, InvalidSessionId>(
                InvalidSessionId(id),
            ) && final(self)@ == old(self)@,
            spec_has(old(self)@, id as int) ==> ({
                let s = old(self)@[id as int]->Some_0;
                let (pr, c2) = spec_pop(s.downstream);
                &&& r matches Ok(o) && o@ == pr
                &&& final(self)@ == old(self)@.update(
                    id as int,
                    Some(SessionModel { downstream: c2, ..s }),
                )
            }),
    {
        if id >= self.slots.len() {
            return Err(InvalidSessionId(id));
        }
        let ghost prev = self.slots.deep_view();
        let slot = self.slots.remove(id);
        match slot {
            Option::None => {
                self.slots.insert(id, Option::None);
                proof {
                    assert(self.slots.deep_view() =~~= prev);
                }
                Err(InvalidSessionId(id))
            },
            Option::Some(mut s) => {
                let out = s.downstream.pop();
                self.slots.insert(id, Option::Some(s));
                proof {
                    let m = prev[id as int]->Some_0;
                    assert(self.slots.deep_view() =~~= prev.update(
                        id as int,
                        Some(SessionModel { downstream: spec_pop(m.downstream).1, ..m }),
                    ));
                }
                Ok(out)
            },
        }
    }

    /// Closes the downstream channel of session `id`: either side may
    /// do so, after which the drain task's next push is refused and
    /// pops report the stream end once the buffer is drained.
    pub fn close_downstream(&mut self, id: usize) -> (r: Result<(), InvalidSessionId>)
        ensures
            !spec_has(old(self)@, id as int) ==> r == Err::<(), InvalidSessionId>(
                InvalidSessionId(id),
            ) && final(self)@ == old(self)@,
            spec_has(old(self)@, id as int) ==> ({
                let s = old(self)@[id as int]->Some_0;
                &&& r is Ok
                &&& final(self)@ == old(self)@.update(
                    id as int,
                    Some(SessionModel { downstream: spec_close(s.downstream), ..s }),
                )
            }),
    {
        if id >= self.slots.len() {
            return Err(InvalidSessionId(id));
        }
        let ghost prev = self.slots.deep_view();
        let slot = self.slots.remove(id);
        match slot {
            Option::None => {
                self.slots.insert(id, Option::None);
                proof {
                    assert(self.slots.deep_view() =~~= prev);
                }
                Err(InvalidSessionId(id))
            },
            Option::Some(mut s) => {
                s.downstream.close();
                self.slots.insert(id, Option::Some(s));
                proof {
                    let m = prev[id as int]->Some_0;
                    assert(self.slots.deep_view() =~~= prev.update(
                        id as int,
                        Some(SessionModel { downstream: spec_close(m.downstream), ..m }),
                    ));
                }
                Ok(())
            },
        }
    }

    /// Frees the slot of session `id`, making its index reusable.
    /// Callers free a slot once both channels are closed and drained.
    pub fn release(&mut self, id: usize) -> (r: Result<(), InvalidSessionId>)
        ensures
            spec_has(old(self)@, id as int) ==> r is Ok && final(self)@ == old(self)@.update(
                id as int,
                Option::<SessionModel>::None,
            ),
            !spec_has(old(self)@, id as int) ==> r == Err::<(), InvalidSessionId>(
                InvalidSessionId(id),
            ) && final(self)@ == old(self)@,
    {
        if id >= self.slots.len() {
            return Err(InvalidSessionId(id));
        }
        let ghost prev = self.slots.deep_view();
        let slot = self.slots.remove(id);
        match slot {
            Option::None => {
                self.slots.insert(id, Option::None);
                proof {
                    assert(self.slots.deep_view() =~~= prev);
                }
                Err(InvalidSessionId(id))
            },
            Option::Some(_) => {
                self.slots.insert(id, Option::None);
                proof {
                    assert(self.slots.deep_view() =~~= prev.update(
                        id as int,
                        Option::<SessionModel>::None,
                    ));
                }
                Ok(())
            },
        }
    }
}

/// Claiming succeeds exactly once: the first claim of a reserved,
/// still-open session yields `Ok`, and a second claim on the very same
/// id fails with `Consumed` and changes nothing further.
pub proof fn lemma_claim_exactly_once(slots: Seq<Option<SessionModel>>, id: int)
    requires
        spec_has(slots, id),
        slots[id]->Some_0.state is Open,
    ensures
        spec_claim(slots, id).0 is Ok,
        spec_claim(spec_claim(slots, id).1, id).0 == Result::<(), SessionError>::Err(
            SessionError::Consumed,
        ),
        spec_claim(spec_claim(slots, id).1, id).1 == spec_claim(slots, id).1,
{
}

/// A claim on an id that was never reserved (or whose slot was freed)
/// fails with `Unestablished` and changes nothing.
pub proof fn lemma_claim_unestablished(slots: Seq<Option<SessionModel>>, id: int)
    requires
        !spec_has(slots, id),
    ensures
        spec_claim(slots, id) == (Result::<(), SessionError>::Err(SessionError::Unestablished), slots),
{
}

/// A pop before any data was pushed, and before the channel is closed,
/// reports "no content yet"; it does not block, fail, or disturb the
/// channel.
pub proof fn lemma_pop_before_any_data(c: ChannelModel)
    requires
        c.queue.len() == 0,
        !c.closed,
    ensures
        spec_pop(c) == (PopView::NoContentYet, c),
{
}

/// Chunks come out in the order they went in: pushing `a`, `b`, `d`
/// into an empty open channel with room for them, then popping three
/// times, yields `a`, `b`, `d`; the next pop reports "no content yet";
/// and once the channel is closed, pops report the end of the stream.
pub proof fn lemma_fifo_order(c0: ChannelModel, a: Seq<u8>, b: Seq<u8>, d: Seq<u8>)
    requires
        c0.queue.len() == 0,
        !c0.closed,
        c0.capacity >= 3,
    ensures
        ({
            let (r1, c1) = spec_push(c0, a);
            let (r2, c2) = spec_push(c1, b);
            let (r3, c3) = spec_push(c2, d);
            let (p1, c4) = spec_pop(c3);
            let (p2, c5) = spec_pop(c4);
            let (p3, c6) = spec_pop(c5);
            let (p4, c7) = spec_pop(c6);
            let (p5, _) = spec_pop(spec_close(c7));
            r1 is Accepted && r2 is Accepted && r3 is Accepted && p1 == PopView::Chunk(a) && p2
                == PopView::Chunk(b) && p3 == PopView::Chunk(d) && p4 == PopView::NoContentYet && p5
                == PopView::Ended
        }),
{
    let (r1, c1) = spec_push(c0, a);
    let (r2, c2) = spec_push(c1, b);
    let (r3, c3) = spec_push(c2, d);
    assert(c3.queue =~= seq![a, b, d]);
    let (p1, c4) = spec_pop(c3);
    assert(c4.queue =~= seq![b, d]);
    let (p2, c5) = spec_pop(c4);
    assert(c5.queue =~= seq![d]);
    let (p3, c6) = spec_pop(c5);
    assert(c6.queue =~= Seq::<Seq<u8>>::empty());
}

} // verus!
