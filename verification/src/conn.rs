//! The decisions of the connection actor.
//!
//! The actor owns one transport and one decoder and serves one request at a
//! time: it takes an envelope from its mailbox, writes the request, flushes,
//! reads and decodes until the response is complete, delivers it, and takes
//! the next envelope. What it does on the outside — looking into the
//! mailbox, writing, flushing, reading, delivering, suspending — is done by
//! whoever runs it: `HttpsConn::poll` takes what happened and says what to
//! do next.

use vstd::prelude::*;
use crate::response::decoder::DataDecoder;
use crate::response::laws::lemma_feed_wf;
use crate::response::laws::lemma_fragmentation_invariance;
use crate::response::model::concat;
use crate::response::model::DecoderModel;
use crate::response::model::DecoderState;
use crate::response::HttpResErr;
use crate::response::HttpResErrView;
use crate::response::Response;
use crate::response::ResponseView;
use crate::scan::append_range;

verus! {

/// The work that a suspended actor takes up again.
#[derive(Debug, PartialEq, Eq, Clone, Copy, Structural)]
pub enum Resume {
    /// Looking into the mailbox.
    Mailbox,
    /// Writing the request in flight.
    Write,
    /// Flushing the transport.
    Flush,
    /// Reading the response.
    Read,
}

/// Why the actor stopped.
#[derive(Debug, PartialEq, Eq, Clone, Copy, Structural)]
pub enum Ending {
    /// Shutdown was asked for.
    Shutdown,
    /// Every sender of the mailbox is gone.
    Disconnected,
    /// The transport failed.
    Transport,
    /// The transport reached its end in the middle of a request.
    Closed,
}

/// What the actor waits for.
#[derive(Debug, PartialEq, Eq, Clone, Copy, Structural)]
pub enum Stage {
    /// Suspended; the next turn begins with `Event::Wake`.
    Asleep(Resume),
    /// The mailbox's answer.
    Mailbox,
    /// The outcome of a write.
    Writing,
    /// The outcome of a flush.
    Flushing,
    /// The outcome of a read.
    Reading,
    /// A result has been handed out for delivery; the actor goes on, or
    /// stops for the given reason, whatever it is told next.
    Delivered(Option<Ending>),
    /// Stopped for good.
    Stopped(Ending),
}

/// Why a request failed.
#[derive(Debug)]
pub enum Failure {
    /// The response could not be parsed.
    Parse(HttpResErr),
    /// The transport failed.
    Transport,
    /// The transport reached its end before the response did.
    Closed,
}

/// A failure as a mathematical value.
pub enum FailureView {
    Parse(HttpResErrView),
    Transport,
    Closed,
}

impl View for Failure {
    type V = FailureView;

    open spec fn view(&self) -> FailureView {
        match *self {
            Failure::Parse(e) => FailureView::Parse(e@),
            Failure::Transport => FailureView::Transport,
            Failure::Closed => FailureView::Closed,
        }
    }
}

/// What happened outside since the last step.
#[derive(Debug)]
pub enum Event {
    /// A turn begins; `shutdown` tells whether shutdown has been asked for.
    Wake { shutdown: bool },
    /// The mailbox held an envelope with these request bytes.
    Envelope(Vec<u8>),
    /// The mailbox is empty.
    MailboxEmpty,
    /// Every sender of the mailbox is gone.
    MailboxClosed,
    /// The transport took this many bytes of the request.
    Wrote(usize),
    /// The transport is flushed.
    Flushed,
    /// The transport gave these bytes; none at its end.
    Received(Vec<u8>),
    /// The transport would suspend.
    Blocked,
    /// The transport failed.
    Failed,
    /// The result was handed to the caller's channel, or the caller is gone.
    Delivered,
}

/// An event as a mathematical value.
pub enum EventView {
    Wake { shutdown: bool },
    Envelope(Seq<u8>),
    MailboxEmpty,
    MailboxClosed,
    Wrote(usize),
    Flushed,
    Received(Seq<u8>),
    Blocked,
    Failed,
    Delivered,
}

impl View for Event {
    type V = EventView;

    open spec fn view(&self) -> EventView {
        match *self {
            Event::Wake { shutdown } => EventView::Wake { shutdown },
            Event::Envelope(d) => EventView::Envelope(d@),
            Event::MailboxEmpty => EventView::MailboxEmpty,
            Event::MailboxClosed => EventView::MailboxClosed,
            Event::Wrote(n) => EventView::Wrote(n),
            Event::Flushed => EventView::Flushed,
            Event::Received(d) => EventView::Received(d@),
            Event::Blocked => EventView::Blocked,
            Event::Failed => EventView::Failed,
            Event::Delivered => EventView::Delivered,
        }
    }
}

/// What to do next on the outside.
#[derive(Debug)]
pub enum Action {
    /// Look into the mailbox.
    TakeEnvelope,
    /// Write the unsent bytes of the request in flight.
    Write,
    /// Flush the transport.
    Flush,
    /// Read from the transport.
    Read,
    /// Hand this result to the caller of the request in flight.
    Deliver(Result<Response, Failure>),
    /// Suspend until the mailbox or the transport is ready.
    Suspend,
    /// End the task.
    Stop(Ending),
}

/// An action as a mathematical value.
pub enum ActionView {
    TakeEnvelope,
    Write,
    Flush,
    Read,
    Deliver(Result<ResponseView, FailureView>),
    Suspend,
    Stop(Ending),
}

impl View for Action {
    type V = ActionView;

    open spec fn view(&self) -> ActionView {
        match *self {
            Action::TakeEnvelope => ActionView::TakeEnvelope,
            Action::Write => ActionView::Write,
            Action::Flush => ActionView::Flush,
            Action::Read => ActionView::Read,
            Action::Deliver(r) => ActionView::Deliver(
                match r {
                    Ok(resp) => Ok(resp@),
                    Err(f) => Err(f@),
                },
            ),
            Action::Suspend => ActionView::Suspend,
            Action::Stop(e) => ActionView::Stop(e),
        }
    }
}

/// The state of the actor.
pub struct ConnModel {
    pub stage: Stage,
    /// The decoder of the connection.
    pub decoder: DecoderModel,
    /// The bytes of the request in flight that are not written yet.
    pub unsent: Seq<u8>,
    /// How many envelopes have been taken from the mailbox.
    pub taken: nat,
    /// How many results have been handed out for delivery.
    pub delivered: nat,
}

impl ConnModel {
    /// An actor that has done nothing yet: suspended, with a fresh decoder.
    pub open spec fn initial() -> ConnModel {
        ConnModel {
            stage: Stage::Asleep(Resume::Mailbox),
            decoder: DecoderModel::fresh(),
            unsent: Seq::empty(),
            taken: 0,
            delivered: 0,
        }
    }

    /// Takes up the work named by `r`.
    pub open spec fn resume(self, r: Resume) -> (ConnModel, ActionView) {
        match r {
            Resume::Mailbox => (
                ConnModel { stage: Stage::Mailbox, ..self },
                ActionView::TakeEnvelope,
            ),
            Resume::Write => (ConnModel { stage: Stage::Writing, ..self }, ActionView::Write),
            Resume::Flush => (ConnModel { stage: Stage::Flushing, ..self }, ActionView::Flush),
            Resume::Read => (ConnModel { stage: Stage::Reading, ..self }, ActionView::Read),
        }
    }

    /// Goes on with the request in flight after some of it was written:
    /// more writing while bytes are unsent, else the flush.
    pub open spec fn send(self) -> (ConnModel, ActionView) {
        if self.unsent.len() == 0 {
            (ConnModel { stage: Stage::Flushing, ..self }, ActionView::Flush)
        } else {
            (ConnModel { stage: Stage::Writing, ..self }, ActionView::Write)
        }
    }

    /// Fails the request in flight because of the transport, and stops the
    /// actor once the failure is delivered.
    pub open spec fn fail(self, f: FailureView, end: Ending) -> (ConnModel, ActionView) {
        (
            ConnModel {
                stage: Stage::Delivered(Some(end)),
                delivered: self.delivered + 1,
                ..self
            },
            ActionView::Deliver(Err(f)),
        )
    }

    /// Feeds what was read to the decoder: a failure of the decoder and a
    /// complete response are delivered, anything else asks for more.
    pub open spec fn receive(self, data: Seq<u8>) -> (ConnModel, ActionView) {
        let d = self.decoder.feed(data);
        match d.fault {
            Some(f) => (
                ConnModel {
                    stage: Stage::Delivered(None),
                    decoder: d,
                    delivered: self.delivered + 1,
                    ..self
                },
                ActionView::Deliver(Err(FailureView::Parse(f.error()))),
            ),
            None => match d.response() {
                Some(r) => (
                    ConnModel {
                        stage: Stage::Delivered(None),
                        decoder: DecoderModel::fresh(),
                        delivered: self.delivered + 1,
                        ..self
                    },
                    ActionView::Deliver(Ok(r)),
                ),
                None => (ConnModel { stage: Stage::Reading, decoder: d, ..self }, ActionView::Read),
            },
        }
    }

    /// The state after `e`, and what to do next. An event that does not
    /// answer what the actor waits for changes nothing, and the actor asks
    /// again.
    pub open spec fn next(self, e: EventView) -> (ConnModel, ActionView) {
        match self.stage {
            Stage::Stopped(end) => (self, ActionView::Stop(end)),
            Stage::Delivered(stop) => match stop {
                Some(end) => (
                    ConnModel { stage: Stage::Stopped(end), ..self },
                    ActionView::Stop(end),
                ),
                None => (ConnModel { stage: Stage::Mailbox, ..self }, ActionView::TakeEnvelope),
            },
            Stage::Asleep(r) => match e {
                EventView::Wake { shutdown } => if shutdown {
                    (
                        ConnModel { stage: Stage::Stopped(Ending::Shutdown), ..self },
                        ActionView::Stop(Ending::Shutdown),
                    )
                } else {
                    self.resume(r)
                },
                _ => (self, ActionView::Suspend),
            },
            Stage::Mailbox => match e {
                EventView::Envelope(d) => (ConnModel {
                    unsent: d,
                    taken: self.taken + 1,
                    ..self
                }).send(),
                EventView::MailboxEmpty => (
                    ConnModel { stage: Stage::Asleep(Resume::Mailbox), ..self },
                    ActionView::Suspend,
                ),
                EventView::MailboxClosed => (
                    ConnModel { stage: Stage::Stopped(Ending::Disconnected), ..self },
                    ActionView::Stop(Ending::Disconnected),
                ),
                _ => (self, ActionView::TakeEnvelope),
            },
            Stage::Writing => match e {
                EventView::Wrote(n) => if n == 0 {
                    self.fail(FailureView::Transport, Ending::Transport)
                } else if n >= self.unsent.len() {
                    (ConnModel { unsent: Seq::empty(), ..self }).send()
                } else {
                    (ConnModel { unsent: self.unsent.skip(n as int), ..self }).send()
                },
                EventView::Blocked => (
                    ConnModel { stage: Stage::Asleep(Resume::Write), ..self },
                    ActionView::Suspend,
                ),
                EventView::Failed => self.fail(FailureView::Transport, Ending::Transport),
                _ => (self, ActionView::Write),
            },
            Stage::Flushing => match e {
                EventView::Flushed => (
                    ConnModel { stage: Stage::Reading, ..self },
                    ActionView::Read,
                ),
                EventView::Blocked => (
                    ConnModel { stage: Stage::Asleep(Resume::Flush), ..self },
                    ActionView::Suspend,
                ),
                EventView::Failed => self.fail(FailureView::Transport, Ending::Transport),
                _ => (self, ActionView::Flush),
            },
            Stage::Reading => match e {
                EventView::Received(d) => if d.len() == 0 {
                    self.fail(FailureView::Closed, Ending::Closed)
                } else {
                    self.receive(d)
                },
                EventView::Blocked => (
                    ConnModel { stage: Stage::Asleep(Resume::Read), ..self },
                    ActionView::Suspend,
                ),
                EventView::Failed => self.fail(FailureView::Transport, Ending::Transport),
                _ => (self, ActionView::Read),
            },
        }
    }

    /// A request is in flight: taken from the mailbox, its result not yet
    /// handed out.
    pub open spec fn in_flight(self) -> bool {
        match self.stage {
            Stage::Asleep(r) => r != Resume::Mailbox,
            Stage::Writing => true,
            Stage::Flushing => true,
            Stage::Reading => true,
            _ => false,
        }
    }

    /// At most one request is in flight, and every envelope taken before it
    /// has had its result handed out.
    pub open spec fn wf(self) -> bool {
        &&& self.delivered <= self.taken <= self.delivered + 1
        &&& self.in_flight() ==> self.taken == self.delivered + 1
        &&& !self.in_flight() && !(self.stage is Stopped) ==> self.taken == self.delivered
    }

    /// The state after the events `events`, in their order.
    pub open spec fn run(self, events: Seq<EventView>) -> ConnModel
        decreases events.len(),
    {
        if events.len() == 0 {
            self
        } else {
            self.next(events[0]).0.run(events.drop_first())
        }
    }

    /// What the actor asks for while the events `events` are taken, in
    /// their order.
    pub open spec fn actions(self, events: Seq<EventView>) -> Seq<ActionView>
        decreases events.len(),
    {
        if events.len() == 0 {
            Seq::empty()
        } else {
            seq![self.next(events[0]).1] + self.next(events[0]).0.actions(events.drop_first())
        }
    }

    /// For each result handed out while the events `events` are taken, in
    /// the order of handing out: the number of the envelope that it answers,
    /// envelopes being numbered from one in the order in which they were
    /// taken from the mailbox.
    pub open spec fn answers(self, events: Seq<EventView>) -> Seq<nat>
        decreases events.len(),
    {
        if events.len() == 0 {
            Seq::empty()
        } else {
            let (m, a) = self.next(events[0]);
            let rest = m.answers(events.drop_first());
            if a is Deliver {
                seq![self.taken] + rest
            } else {
                rest
            }
        }
    }
}

/// The events of reading `parts` from the transport, one after the other.
pub open spec fn received(parts: Seq<Seq<u8>>) -> Seq<EventView> {
    Seq::new(parts.len(), |i: int| EventView::Received(parts[i]))
}

/// The deliveries `parts`, none of them empty, bring a decoder in state `d`
/// to the end of a response with the last of them, and not before.
pub open spec fn completes_at_end(d: DecoderModel, parts: Seq<Seq<u8>>) -> bool {
    &&& parts.len() > 0
    &&& forall|i: int| 0 <= i < parts.len() ==> (#[trigger] parts[i]).len() > 0
    &&& forall|k: int| 0 < k < parts.len() ==> !(#[trigger] d.feed_all(parts.take(k))).terminal()
    &&& d.feed_all(parts).state == DecoderState::Finished
}

/// What the actor asks for while it reads a response in `parts`: to read
/// after every part but the last, and to deliver `r` after the last.
pub open spec fn reads_then_delivery(parts: Seq<Seq<u8>>, r: ResponseView) -> Seq<ActionView> {
    Seq::new(
        parts.len(),
        |i: int|
            if i + 1 < parts.len() {
                ActionView::Read
            } else {
                ActionView::Deliver(Ok(r))
            },
    )
}

/// Every step keeps the actor well-formed: one request in flight at most.
pub proof fn lemma_next_wf(m: ConnModel, e: EventView)
    requires
        m.wf(),
    ensures
        m.next(e).0.wf(),
{
}

/// An envelope is taken from the mailbox, and a request is written, only
/// when the results of all envelopes taken before have been handed out.
pub proof fn lemma_one_request_in_flight(m: ConnModel, e: EventView)
    requires
        m.wf(),
    ensures
        m.next(e).0.taken != m.taken ==> m.taken == m.delivered && m.next(e).0.taken == m.taken
            + 1,
        m.next(e).1 is Write ==> m.next(e).0.taken == m.next(e).0.delivered + 1,
        m.next(e).1 is Deliver ==> m.taken == m.delivered + 1 && m.next(e).0.delivered
            == m.delivered + 1,
        !(m.next(e).1 is Deliver) ==> m.next(e).0.delivered == m.delivered,
{
}

/// Results are handed out in the order in which the envelopes were taken
/// from the mailbox: the first result answers the first envelope, the
/// second the second, and so on, whatever happens in between.
pub proof fn lemma_results_in_mailbox_order(m: ConnModel, events: Seq<EventView>)
    requires
        m.wf(),
    ensures
        forall|i: int|
            0 <= i < m.answers(events).len() ==> #[trigger] m.answers(events)[i] == m.delivered
                + 1 + i,
        m.answers(events).len() == m.run(events).delivered - m.delivered,
    decreases events.len(),
{
    if events.len() > 0 {
        let (m2, a) = m.next(events[0]);
        lemma_next_wf(m, events[0]);
        lemma_one_request_in_flight(m, events[0]);
        lemma_results_in_mailbox_order(m2, events.drop_first());
    }
}

/// The request in flight is answered with the response that is read while
/// it is in flight: the actor reads until the response is complete, hands
/// out that response and no other, and stands ready for the next envelope
/// with a fresh decoder.
pub proof fn lemma_reads_deliver_the_response(m: ConnModel, parts: Seq<Seq<u8>>)
    requires
        m.stage == Stage::Reading,
        m.decoder.wf(),
        completes_at_end(m.decoder, parts),
    ensures
        m.actions(received(parts)) == reads_then_delivery(
            parts,
            m.decoder.feed_all(parts).response()->Some_0,
        ),
        m.run(received(parts)) == (ConnModel {
            stage: Stage::Delivered(None),
            decoder: DecoderModel::fresh(),
            delivered: m.delivered + 1,
            ..m
        }),
    decreases parts.len(),
{
    let d = m.decoder;
    let events = received(parts);
    let rest = parts.drop_first();
    let d1 = d.feed(parts[0]);
    let r = d.feed_all(parts).response()->Some_0;
    assert(parts[0].len() > 0);
    lemma_feed_wf(d, parts[0]);
    assert(events[0] == EventView::Received(parts[0]));
    assert(events.drop_first() =~= received(rest));
    assert(d.feed_all(parts) == d1.feed_all(rest));
    if parts.len() == 1 {
        assert(rest.len() == 0);
        assert(d1.feed_all(rest) == d1);
        let m1 = m.next(events[0]).0;
        assert(received(rest).len() == 0);
        assert(m1.actions(received(rest)) =~= Seq::<ActionView>::empty());
        assert(m1.run(received(rest)) == m1);
        assert(m.actions(events) =~= reads_then_delivery(parts, r));
    } else {
        assert(d.feed_all(parts.take(1)) == d1) by {
            assert(parts.take(1)[0] == parts[0]);
            assert(parts.take(1).drop_first() =~= Seq::<Seq<u8>>::empty());
            reveal_with_fuel(DecoderModel::feed_all, 2);
        }
        let m1 = ConnModel { stage: Stage::Reading, decoder: d1, ..m };
        assert(m.next(events[0]) == (m1, ActionView::Read));
        assert(completes_at_end(d1, rest)) by {
            assert forall|i: int| 0 <= i < rest.len() implies (#[trigger] rest[i]).len() > 0 by {
                assert(parts[i + 1].len() > 0);
            }
            assert forall|k: int| 0 < k < rest.len() implies !(#[trigger] d1.feed_all(
                rest.take(k),
            )).terminal() by {
                let p = parts.take(k + 1);
                assert(p[0] == parts[0]);
                assert(p.drop_first() =~= rest.take(k));
                assert(d.feed_all(p) == d1.feed_all(rest.take(k)));
            }
        }
        lemma_reads_deliver_the_response(m1, rest);
        assert(m.actions(events) =~= reads_then_delivery(parts, r));
    }
}

/// The response handed out is what the bytes read spell out, in whatever
/// pieces the transport gave them: it is the response that the decoder
/// makes of the bytes of `parts` taken as one.
pub proof fn lemma_delivery_is_the_response_of_the_bytes(m: ConnModel, parts: Seq<Seq<u8>>)
    requires
        m.stage == Stage::Reading,
        m.decoder.wf(),
        m.decoder.step() is None,
        completes_at_end(m.decoder, parts),
        !m.decoder.feed(concat(parts)).unframed(),
    ensures
        m.actions(received(parts)) == reads_then_delivery(
            parts,
            m.decoder.feed(concat(parts)).response()->Some_0,
        ),
{
    lemma_fragmentation_invariance(m.decoder, parts);
    lemma_reads_deliver_the_response(m, parts);
}

/// After a result has been handed out, the actor does the same whatever it
/// is told next: whether the caller got the result or had gone away makes
/// no difference, and unless the transport failed the actor looks into the
/// mailbox for the next envelope.
pub proof fn lemma_delivery_report_is_ignored(m: ConnModel, e1: EventView, e2: EventView)
    requires
        m.stage is Delivered,
    ensures
        m.next(e1) == m.next(e2),
        m.stage == Stage::Delivered(None) ==> m.next(e1).1 == ActionView::TakeEnvelope,
{
}

/// Shutdown, seen at the beginning of a turn, stops the actor whatever is
/// in flight.
pub proof fn lemma_shutdown_stops(m: ConnModel)
    requires
        m.stage is Asleep,
    ensures
        m.next(EventView::Wake { shutdown: true }).1 == ActionView::Stop(Ending::Shutdown),
        m.next(EventView::Wake { shutdown: true }).0.stage == Stage::Stopped(Ending::Shutdown),
{
}

/// The connection actor's state: the decoder, and where the request in
/// flight stands.
pub struct HttpsConn {
    decoder: DataDecoder,
    stage: Stage,
    unsent: Vec<u8>,
    taken: Ghost<nat>,
    delivered: Ghost<nat>,
}

impl View for HttpsConn {
    type V = ConnModel;

    closed spec fn view(&self) -> ConnModel {
        ConnModel {
            stage: self.stage,
            decoder: self.decoder@,
            unsent: self.unsent@,
            taken: self.taken@,
            delivered: self.delivered@,
        }
    }
}

impl HttpsConn {
    /// Creates the actor's state for a new connection.
    pub fn new() -> (c: Self)
        ensures
            c@ == ConnModel::initial(),
            c@.wf(),
    {
        Self {
            decoder: DataDecoder::new(),
            stage: Stage::Asleep(Resume::Mailbox),
            unsent: Vec::new(),
            taken: Ghost(0),
            delivered: Ghost(0),
        }
    }

    /// What the actor waits for.
    pub fn stage(&self) -> (s: Stage)
        ensures
            s == self@.stage,
    {
        self.stage
    }

    /// The bytes of the request in flight that are still to be written.
    pub fn unsent(&self) -> (b: &[u8])
        ensures
            b@ == self@.unsent,
    {
        self.unsent.as_slice()
    }

    /// Takes what happened on the outside and says what to do next.
    ///
    /// One request is in flight at most: an envelope is taken, and a
    /// request written, only when every envelope taken before has had its
    /// result handed out, and a result handed out is that of the request in
    /// flight. After a result has been handed out the actor goes on
    /// whatever it is told, be it that the caller has gone away.
    pub fn poll(&mut self, event: Event) -> (action: Action)
        ensures
            (final(self)@, action@) == old(self)@.next(event@),
            old(self)@.wf() ==> final(self)@.wf(),
            old(self)@.wf() && final(self)@.taken != old(self)@.taken ==> old(self)@.taken == old(self)@.delivered && final(self)@.taken == old(self)@.taken + 1,
            old(self)@.wf() && action@ is Write ==> final(self)@.taken == final(self)@.delivered
                + 1,
            old(self)@.wf() && action@ is Deliver ==> old(self)@.taken == old(self)@.delivered + 1
                && final(self)@.delivered == old(self)@.delivered + 1,
            !(action@ is Deliver) ==> final(self)@.delivered == old(self)@.delivered,
            old(self)@.stage == Stage::Delivered(None) ==> action@ == ActionView::TakeEnvelope
                && final(self)@.stage == Stage::Mailbox,
    {
        proof {
            if self@.wf() {
                lemma_next_wf(self@, event@);
                lemma_one_request_in_flight(self@, event@);
            }
        }
        match self.stage {
            Stage::Stopped(end) => Action::Stop(end),
            Stage::Delivered(stop) => match stop {
                Some(end) => {
                    self.stage = Stage::Stopped(end);
                    Action::Stop(end)
                },
                None => {
                    self.stage = Stage::Mailbox;
                    Action::TakeEnvelope
                },
            },
            Stage::Asleep(r) => match event {
                Event::Wake { shutdown } => {
                    if shutdown {
                        self.stage = Stage::Stopped(Ending::Shutdown);
                        Action::Stop(Ending::Shutdown)
                    } else {
                        match r {
                            Resume::Mailbox => {
                                self.stage = Stage::Mailbox;
                                Action::TakeEnvelope
                            },
                            Resume::Write => {
                                self.stage = Stage::Writing;
                                Action::Write
                            },
                            Resume::Flush => {
                                self.stage = Stage::Flushing;
                                Action::Flush
                            },
                            Resume::Read => {
                                self.stage = Stage::Reading;
                                Action::Read
                            },
                        }
                    }
                },
                _ => Action::Suspend,
            },
            Stage::Mailbox => match event {
                Event::Envelope(d) => {
                    self.unsent = d;
                    self.taken = Ghost((self.taken@ + 1) as nat);
                    self.send()
                },
                Event::MailboxEmpty => {
                    self.stage = Stage::Asleep(Resume::Mailbox);
                    Action::Suspend
                },
                Event::MailboxClosed => {
                    self.stage = Stage::Stopped(Ending::Disconnected);
                    Action::Stop(Ending::Disconnected)
                },
                _ => Action::TakeEnvelope,
            },
            Stage::Writing => match event {
                Event::Wrote(n) => {
                    if n == 0 {
                        self.fail(Failure::Transport, Ending::Transport)
                    } else if n >= self.unsent.len() {
                        self.unsent = Vec::new();
                        self.send()
                    } else {
                        let mut rest: Vec<u8> = Vec::new();
                        append_range(&mut rest, self.unsent.as_slice(), n, self.unsent.len());
                        assert(rest@ =~= self.unsent@.skip(n as int));
                        self.unsent = rest;
                        self.send()
                    }
                },
                Event::Blocked => {
                    self.stage = Stage::Asleep(Resume::Write);
                    Action::Suspend
                },
                Event::Failed => self.fail(Failure::Transport, Ending::Transport),
                _ => Action::Write,
            },
            Stage::Flushing => match event {
                Event::Flushed => {
                    self.stage = Stage::Reading;
                    Action::Read
                },
                Event::Blocked => {
                    self.stage = Stage::Asleep(Resume::Flush);
                    Action::Suspend
                },
                Event::Failed => self.fail(Failure::Transport, Ending::Transport),
                _ => Action::Flush,
            },
            Stage::Reading => match event {
                Event::Received(d) => {
                    if d.len() == 0 {
                        self.fail(Failure::Closed, Ending::Closed)
                    } else {
                        self.receive(d.as_slice())
                    }
                },
                Event::Blocked => {
                    self.stage = Stage::Asleep(Resume::Read);
                    Action::Suspend
                },
                Event::Failed => self.fail(Failure::Transport, Ending::Transport),
                _ => Action::Read,
            },
        }
    }

    /// Goes on with the request in flight: writes while bytes are unsent,
    /// then flushes.
    fn send(&mut self) -> (action: Action)
        ensures
            (final(self)@, action@) == old(self)@.send(),
    {
        if self.unsent.len() == 0 {
            self.stage = Stage::Flushing;
            Action::Flush
        } else {
            self.stage = Stage::Writing;
            Action::Write
        }
    }

    /// Fails the request in flight and stops once the failure is delivered.
    fn fail(&mut self, f: Failure, end: Ending) -> (action: Action)
        ensures
            (final(self)@, action@) == old(self)@.fail(f@, end),
    {
        self.stage = Stage::Delivered(Some(end));
        self.delivered = Ghost((self.delivered@ + 1) as nat);
        Action::Deliver(Err(f))
    }

    /// Feeds what was read to the decoder and delivers what comes of it.
    fn receive(&mut self, data: &[u8]) -> (action: Action)
        ensures
            (final(self)@, action@) == old(self)@.receive(data@),
    {
        match self.decoder.decode(data) {
            Err(e) => {
                self.stage = Stage::Delivered(None);
                self.delivered = Ghost((self.delivered@ + 1) as nat);
                Action::Deliver(Err(Failure::Parse(e)))
            },
            Ok(()) => {
                match self.decoder.get_resp() {
                    Some(r) => {
                        self.stage = Stage::Delivered(None);
                        self.delivered = Ghost((self.delivered@ + 1) as nat);
                        Action::Deliver(Ok(r))
                    },
                    None => {
                        self.stage = Stage::Reading;
                        Action::Read
                    },
                }
            },
        }
    }
}

} // verus!
