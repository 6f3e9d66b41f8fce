//! The decisions of the TLS stream adapter.
//!
//! The adapter couples a transport with a TLS engine. Moving ciphertext
//! between the two is done on the outside; this module decides what to move
//! next, from what the engine says it wants and from how the last transfer
//! went.

use rustls::ClientConnection;
use vstd::prelude::*;

verus! {

/// The TLS engine: a client connection of rustls.
#[verifier::external_type_specification]
#[verifier::external_body]
pub struct ExClientConnection(ClientConnection);

/// What the TLS engine reports about itself.
#[derive(Debug, PartialEq, Eq, Clone, Copy, Structural)]
pub struct Engine {
    /// The engine wants more ciphertext from the transport.
    pub wants_read: bool,
    /// The engine holds ciphertext for the transport.
    pub wants_write: bool,
    /// The handshake is not complete.
    pub handshaking: bool,
}

/// `rustls::CommonState::wants_read`, reached through the client
/// connection: whether the engine asks for more ciphertext. The answer
/// depends on what the engine has received and sent; nothing is claimed of
/// it.
#[verifier::external_body]
fn engine_wants_read(conn: &ClientConnection) -> bool {
    conn.wants_read()
}

/// `rustls::CommonState::wants_write`, reached through the client
/// connection: whether the engine holds ciphertext to send. Nothing is
/// claimed of the answer.
#[verifier::external_body]
fn engine_wants_write(conn: &ClientConnection) -> bool {
    conn.wants_write()
}

/// `rustls::CommonState::is_handshaking`, reached through the client
/// connection: whether the handshake is still going on. Nothing is claimed
/// of the answer.
#[verifier::external_body]
fn engine_is_handshaking(conn: &ClientConnection) -> bool {
    conn.is_handshaking()
}

impl Engine {
    /// Asks the engine what it wants and whether it is handshaking.
    ///
    /// The three answers are the engine's own, and depend on all that it
    /// has received and sent: nothing is claimed of them. The drivers of
    /// this module take the report as an argument, and say what they do
    /// for every value of it.
    pub fn observe(conn: &ClientConnection) -> Engine {
        Engine {
            wants_read: engine_wants_read(conn),
            wants_write: engine_wants_write(conn),
            handshaking: engine_is_handshaking(conn),
        }
    }
}

/// How a transfer between engine and transport went.
#[derive(Debug, PartialEq, Eq, Clone, Copy, Structural)]
pub enum Transfer {
    /// Nothing was transferred yet: the operation begins.
    Start,
    /// This many bytes were moved; a read of zero bytes is the end of the
    /// transport.
    Done(usize),
    /// The transport would suspend.
    Blocked,
    /// The transfer failed.
    Failed,
}

/// Why a driver of the adapter failed.
#[derive(Debug, PartialEq, Eq, Clone, Copy, Structural)]
pub enum StreamError {
    /// The transport or the engine reported an error.
    Io,
    /// The transport took no byte of a write.
    WriteZero,
    /// The transport ended while the handshake was not complete.
    EofInHandshake,
}

/// How one run of the handshake loop ended.
#[derive(Debug, PartialEq, Eq, Clone, Copy, Structural)]
pub enum Outcome {
    /// The loop has ended, having moved this many bytes.
    Ready { read: usize, written: usize },
    /// Nothing could be moved: the operation suspends.
    Pending,
    /// The loop failed.
    Failed(StreamError),
}

/// What the handshake loop waits for.
#[derive(Debug, PartialEq, Eq, Clone, Copy, Structural)]
pub enum Phase {
    /// The loop has not begun.
    Idle,
    /// The outcome of writing ciphertext to the transport.
    Writing,
    /// The outcome of flushing the transport.
    Flushing,
    /// The outcome of reading ciphertext from the transport.
    Reading,
    /// The loop has ended.
    Finished(Outcome),
}

/// What to do next on the outside.
#[derive(Debug, PartialEq, Eq, Clone, Copy, Structural)]
pub enum Move {
    /// Write the engine's ciphertext to the transport.
    WriteTls,
    /// Flush the transport.
    Flush,
    /// Read ciphertext from the transport and let the engine process it.
    ReadTls,
    /// Return this from the handshake loop.
    Finish(Outcome),
}

/// The handshake loop: rounds of writing what the engine wants to write,
/// flushing if anything was written, and reading what the engine wants to
/// read, until the handshake is complete or nothing more can be moved.
#[derive(Debug, PartialEq, Eq, Clone, Copy, Structural)]
pub struct Handshake {
    pub phase: Phase,
    /// Bytes written since the loop began.
    pub write_len: usize,
    /// Bytes read since the loop began.
    pub read_len: usize,
    /// A write or the flush of this round would suspend.
    pub write_block: bool,
    /// A read of this round would suspend.
    pub read_block: bool,
    /// Something was written in this round.
    pub flush_required: bool,
    /// The transport has reached its end.
    pub eof: bool,
}

impl Handshake {
    /// A loop that has not begun.
    pub open spec fn idle() -> Handshake {
        Handshake {
            phase: Phase::Idle,
            write_len: 0,
            read_len: 0,
            write_block: false,
            read_block: false,
            flush_required: false,
            eof: false,
        }
    }

    /// Ends the loop with `o`.
    pub open spec fn finish(self, o: Outcome) -> (Handshake, Move) {
        (Handshake { phase: Phase::Finished(o), ..self }, Move::Finish(o))
    }

    /// Ends a loop that can move nothing more while the handshake goes on:
    /// it is ready if it moved a byte, and suspends if it moved none.
    pub open spec fn yield_progress(self) -> (Handshake, Move) {
        if self.read_len != 0 || self.write_len != 0 {
            self.finish(Outcome::Ready { read: self.read_len, written: self.write_len })
        } else {
            self.finish(Outcome::Pending)
        }
    }

    /// Begins a round. A round in which the engine wants nothing ends the
    /// loop like a round that is blocked.
    pub open spec fn begin_round(self, engine: Engine) -> (Handshake, Move) {
        let m = Handshake {
            write_block: false,
            read_block: false,
            flush_required: false,
            eof: false,
            ..self
        };
        if engine.wants_write {
            (Handshake { phase: Phase::Writing, ..m }, Move::WriteTls)
        } else if engine.wants_read {
            (Handshake { phase: Phase::Reading, ..m }, Move::ReadTls)
        } else if !engine.handshaking {
            m.finish(Outcome::Ready { read: m.read_len, written: m.write_len })
        } else {
            m.yield_progress()
        }
    }

    /// Ends a round: an end of the transport during the handshake is an
    /// error; a complete handshake ends the loop; a round that was blocked
    /// ends the loop, ready if a byte was moved since the loop began and
    /// suspended if none was; else the next round begins.
    pub open spec fn decide(self, engine: Engine) -> (Handshake, Move) {
        if self.eof && engine.handshaking {
            self.finish(Outcome::Failed(StreamError::EofInHandshake))
        } else if !engine.handshaking {
            self.finish(Outcome::Ready { read: self.read_len, written: self.write_len })
        } else if self.write_block || self.read_block {
            self.yield_progress()
        } else {
            self.begin_round(engine)
        }
    }

    /// Goes to the reads of a round, or past them.
    pub open spec fn enter_read(self, engine: Engine) -> (Handshake, Move) {
        if engine.wants_read && !self.eof {
            (Handshake { phase: Phase::Reading, ..self }, Move::ReadTls)
        } else {
            self.decide(engine)
        }
    }

    /// Goes to the flush of a round, or past it.
    pub open spec fn enter_flush(self, engine: Engine) -> (Handshake, Move) {
        if self.flush_required {
            (Handshake { phase: Phase::Flushing, ..self }, Move::Flush)
        } else {
            self.enter_read(engine)
        }
    }

    /// The loop after a transfer, and what to do next. `engine` is what the
    /// engine reports after the transfer. A report that does not fit what
    /// the loop waits for changes nothing, and the loop asks again.
    pub open spec fn next(self, last: Transfer, engine: Engine) -> (Handshake, Move) {
        match self.phase {
            Phase::Finished(o) => (self, Move::Finish(o)),
            Phase::Idle => self.begin_round(engine),
            Phase::Writing => match last {
                Transfer::Start => (self, Move::WriteTls),
                Transfer::Failed => self.finish(Outcome::Failed(StreamError::Io)),
                Transfer::Blocked => (Handshake { write_block: true, ..self }).enter_flush(engine),
                Transfer::Done(n) => if n == 0 {
                    self.finish(Outcome::Failed(StreamError::WriteZero))
                } else {
                    let m = Handshake {
                        write_len: self.write_len.saturating_add(n),
                        flush_required: true,
                        ..self
                    };
                    if engine.wants_write {
                        (m, Move::WriteTls)
                    } else {
                        m.enter_flush(engine)
                    }
                },
            },
            Phase::Flushing => match last {
                Transfer::Start => (self, Move::Flush),
                Transfer::Failed => self.finish(Outcome::Failed(StreamError::Io)),
                Transfer::Blocked => (Handshake { write_block: true, ..self }).enter_read(engine),
                Transfer::Done(_) => self.enter_read(engine),
            },
            Phase::Reading => match last {
                Transfer::Start => (self, Move::ReadTls),
                Transfer::Failed => self.finish(Outcome::Failed(StreamError::Io)),
                Transfer::Blocked => (Handshake { read_block: true, ..self }).decide(engine),
                Transfer::Done(n) => if n == 0 {
                    (Handshake { eof: true, ..self }).enter_read(engine)
                } else {
                    (Handshake { read_len: self.read_len.saturating_add(n), ..self }).enter_read(
                        engine,
                    )
                },
            },
        }
    }

    /// Creates a loop that has not begun.
    pub fn new() -> (h: Self)
        ensures
            h == Handshake::idle(),
    {
        Handshake {
            phase: Phase::Idle,
            write_len: 0,
            read_len: 0,
            write_block: false,
            read_block: false,
            flush_required: false,
            eof: false,
        }
    }

    /// Takes how the last transfer went and what the engine reports, and
    /// says what to do next.
    pub fn step(&mut self, last: Transfer, engine: Engine) -> (mv: Move)
        ensures
            (*final(self), mv) == old(self).next(last, engine),
    {
        match self.phase {
            Phase::Finished(o) => Move::Finish(o),
            Phase::Idle => self.start_round(engine),
            Phase::Writing => match last {
                Transfer::Start => Move::WriteTls,
                Transfer::Failed => self.end(Outcome::Failed(StreamError::Io)),
                Transfer::Blocked => {
                    self.write_block = true;
                    self.to_flush(engine)
                },
                Transfer::Done(n) => {
                    if n == 0 {
                        self.end(Outcome::Failed(StreamError::WriteZero))
                    } else {
                        self.write_len = self.write_len.saturating_add(n);
                        self.flush_required = true;
                        if engine.wants_write {
                            Move::WriteTls
                        } else {
                            self.to_flush(engine)
                        }
                    }
                },
            },
            Phase::Flushing => match last {
                Transfer::Start => Move::Flush,
                Transfer::Failed => self.end(Outcome::Failed(StreamError::Io)),
                Transfer::Blocked => {
                    self.write_block = true;
                    self.to_read(engine)
                },
                Transfer::Done(_) => self.to_read(engine),
            },
            Phase::Reading => match last {
                Transfer::Start => Move::ReadTls,
                Transfer::Failed => self.end(Outcome::Failed(StreamError::Io)),
                Transfer::Blocked => {
                    self.read_block = true;
                    self.settle(engine)
                },
                Transfer::Done(n) => {
                    if n == 0 {
                        self.eof = true;
                    } else {
                        self.read_len = self.read_len.saturating_add(n);
                    }
                    self.to_read(engine)
                },
            },
        }
    }

    /// Ends the loop with `o`.
    fn end(&mut self, o: Outcome) -> (mv: Move)
        ensures
            (*final(self), mv) == old(self).finish(o),
    {
        self.phase = Phase::Finished(o);
        Move::Finish(o)
    }

    /// Ends a loop that can move nothing more.
    fn progress(&mut self) -> (mv: Move)
        ensures
            (*final(self), mv) == old(self).yield_progress(),
    {
        if self.read_len != 0 || self.write_len != 0 {
            self.end(Outcome::Ready { read: self.read_len, written: self.write_len })
        } else {
            self.end(Outcome::Pending)
        }
    }

    /// Begins a round.
    fn start_round(&mut self, engine: Engine) -> (mv: Move)
        ensures
            (*final(self), mv) == old(self).begin_round(engine),
    {
        self.write_block = false;
        self.read_block = false;
        self.flush_required = false;
        self.eof = false;
        if engine.wants_write {
            self.phase = Phase::Writing;
            Move::WriteTls
        } else if engine.wants_read {
            self.phase = Phase::Reading;
            Move::ReadTls
        } else if !engine.handshaking {
            self.end(Outcome::Ready { read: self.read_len, written: self.write_len })
        } else {
            self.progress()
        }
    }

    /// Ends a round.
    fn settle(&mut self, engine: Engine) -> (mv: Move)
        ensures
            (*final(self), mv) == old(self).decide(engine),
    {
        if self.eof && engine.handshaking {
            self.end(Outcome::Failed(StreamError::EofInHandshake))
        } else if !engine.handshaking {
            self.end(Outcome::Ready { read: self.read_len, written: self.write_len })
        } else if self.write_block || self.read_block {
            self.progress()
        } else {
            self.start_round(engine)
        }
    }

    /// Goes to the reads of a round, or past them.
    fn to_read(&mut self, engine: Engine) -> (mv: Move)
        ensures
            (*final(self), mv) == old(self).enter_read(engine),
    {
        if engine.wants_read && !self.eof {
            self.phase = Phase::Reading;
            Move::ReadTls
        } else {
            self.settle(engine)
        }
    }

    /// Goes to the flush of a round, or past it.
    fn to_flush(&mut self, engine: Engine) -> (mv: Move)
        ensures
            (*final(self), mv) == old(self).enter_flush(engine),
    {
        if self.flush_required {
            self.phase = Phase::Flushing;
            Move::Flush
        } else {
            self.to_read(engine)
        }
    }
}

/// The liveness rule of the handshake loop: it suspends only when it has
/// moved no byte since it began and the handshake is not complete, and it
/// never suspends after progress.
pub proof fn lemma_suspends_only_without_progress(h: Handshake, last: Transfer, engine: Engine)
    requires
        !(h.phase is Finished),
    ensures
        h.next(last, engine).1 == Move::Finish(Outcome::Pending) ==> {
            &&& h.next(last, engine).0.read_len == 0
            &&& h.next(last, engine).0.write_len == 0
            &&& engine.handshaking
        },
        (h.read_len != 0 || h.write_len != 0) ==> h.next(last, engine).1 != Move::Finish(
            Outcome::Pending,
        ),
{
}

/// The loop ends as ready, without another transfer, as soon as the engine
/// reports that the handshake is complete and it wants nothing.
pub proof fn lemma_complete_handshake_is_ready(h: Handshake, last: Transfer, engine: Engine)
    requires
        h.phase is Idle,
        !engine.handshaking,
        !engine.wants_read,
        !engine.wants_write,
    ensures
        h.next(last, engine).1 == Move::Finish(
            Outcome::Ready { read: h.read_len, written: h.write_len },
        ),
{
}

/// An end of the transport while the handshake goes on is fatal.
pub proof fn lemma_eof_in_handshake_is_fatal(h: Handshake, engine: Engine)
    requires
        h.phase is Reading,
        engine.handshaking,
    ensures
        h.next(Transfer::Done(0), engine).1 == Move::Finish(
            Outcome::Failed(StreamError::EofInHandshake),
        ),
{
}

/// What a driver of the adapter asks for.
#[derive(Debug, PartialEq, Eq, Clone, Copy, Structural)]
pub enum Pump {
    /// Run the handshake loop once.
    RunHandshake,
    /// Suspend.
    Suspend,
    /// Fail with this error.
    Fail(StreamError),
    /// The driver is done.
    Done,
}

/// The state of the handshake future.
#[derive(Debug, PartialEq, Eq, Clone, Copy, Structural)]
pub enum Ready {
    /// The stream is still handshaking.
    Handshaking,
    /// The future has yielded its result.
    Done,
}

impl Ready {
    /// The future after one run of the handshake loop, `last` being how the
    /// run ended, or `None` when a poll begins: the loop is run for as long
    /// as the engine is handshaking; the future completes when it is not,
    /// suspends when the loop does, and fails when the loop does.
    pub open spec fn next(self, last: Option<Outcome>, engine: Engine) -> (Ready, Pump) {
        match last {
            Some(Outcome::Failed(e)) => (Ready::Done, Pump::Fail(e)),
            Some(Outcome::Pending) => (Ready::Handshaking, Pump::Suspend),
            _ => if engine.handshaking {
                (Ready::Handshaking, Pump::RunHandshake)
            } else {
                (Ready::Done, Pump::Done)
            },
        }
    }

    /// Says what a poll of the future does next. The future must not be
    /// polled once it has yielded its result.
    pub fn poll(&mut self, last: Option<Outcome>, engine: Engine) -> (p: Pump)
        requires
            *old(self) == Ready::Handshaking,
        ensures
            (*final(self), p) == old(self).next(last, engine),
    {
        match last {
            Some(Outcome::Failed(e)) => {
                *self = Ready::Done;
                Pump::Fail(e)
            },
            Some(Outcome::Pending) => Pump::Suspend,
            _ => {
                if engine.handshaking {
                    Pump::RunHandshake
                } else {
                    *self = Ready::Done;
                    Pump::Done
                }
            },
        }
    }

    /// Tells whether the future has yielded its result.
    pub fn is_done(&self) -> (b: bool)
        ensures
            b == (*self == Ready::Done),
    {
        match self {
            Ready::Done => true,
            Ready::Handshaking => false,
        }
    }
}

/// The two uses that completing I/O makes of the handshake loop.
#[derive(Debug, PartialEq, Eq, Clone, Copy, Structural)]
pub enum IoStage {
    /// Finishing the handshake.
    Handshake,
    /// Writing out what the engine still holds.
    Drain,
}

/// Completing I/O: the handshake loop is run while the engine is
/// handshaking, and once more while it holds ciphertext to write.
/// `last` is how the run for `stage` ended, or `None` at the beginning.
pub open spec fn complete_io_next(stage: IoStage, last: Option<Outcome>, engine: Engine) -> (
    IoStage,
    Pump,
) {
    match last {
        None => if engine.handshaking {
            (IoStage::Handshake, Pump::RunHandshake)
        } else if engine.wants_write {
            (IoStage::Drain, Pump::RunHandshake)
        } else {
            (IoStage::Drain, Pump::Done)
        },
        Some(Outcome::Failed(e)) => (stage, Pump::Fail(e)),
        Some(Outcome::Pending) => (stage, Pump::Suspend),
        Some(Outcome::Ready { .. }) => if stage == IoStage::Handshake && engine.wants_write {
            (IoStage::Drain, Pump::RunHandshake)
        } else {
            (IoStage::Drain, Pump::Done)
        },
    }
}

/// Says what completing I/O does next.
pub fn complete_io(stage: IoStage, last: Option<Outcome>, engine: Engine) -> (res: (IoStage, Pump))
    ensures
        res == complete_io_next(stage, last, engine),
{
    match last {
        None => {
            if engine.handshaking {
                (IoStage::Handshake, Pump::RunHandshake)
            } else if engine.wants_write {
                (IoStage::Drain, Pump::RunHandshake)
            } else {
                (IoStage::Drain, Pump::Done)
            }
        },
        Some(Outcome::Failed(e)) => (stage, Pump::Fail(e)),
        Some(Outcome::Pending) => (stage, Pump::Suspend),
        Some(Outcome::Ready { .. }) => {
            let first = match stage {
                IoStage::Handshake => true,
                IoStage::Drain => false,
            };
            if first && engine.wants_write {
                (IoStage::Drain, Pump::RunHandshake)
            } else {
                (IoStage::Drain, Pump::Done)
            }
        },
    }
}

/// Preparing a read, once I/O is complete: the handshake loop is run for as
/// long as the engine wants ciphertext and the loop reads some.
pub open spec fn prep_read_next(last: Option<Outcome>, engine: Engine) -> Pump {
    match last {
        Some(Outcome::Failed(e)) => Pump::Fail(e),
        Some(Outcome::Pending) => Pump::Suspend,
        Some(Outcome::Ready { read, .. }) => if read != 0 && engine.wants_read {
            Pump::RunHandshake
        } else {
            Pump::Done
        },
        None => if engine.wants_read {
            Pump::RunHandshake
        } else {
            Pump::Done
        },
    }
}

/// Says what preparing a read does next.
pub fn prep_read(last: Option<Outcome>, engine: Engine) -> (p: Pump)
    ensures
        p == prep_read_next(last, engine),
{
    match last {
        Some(Outcome::Failed(e)) => Pump::Fail(e),
        Some(Outcome::Pending) => Pump::Suspend,
        Some(Outcome::Ready { read, written: _ }) => {
            if read != 0 && engine.wants_read {
                Pump::RunHandshake
            } else {
                Pump::Done
            }
        },
        None => {
            if engine.wants_read {
                Pump::RunHandshake
            } else {
                Pump::Done
            }
        },
    }
}

/// What a read of the stream does next.
#[derive(Debug, PartialEq, Eq, Clone, Copy, Structural)]
pub enum ReadMove {
    /// Read ciphertext from the transport and let the engine process it.
    ReadTls,
    /// Copy the plaintext at hand into the caller's buffer; `finish_read`
    /// then says how the read ends, from what the engine gave and from
    /// `at_end`, which tells whether the transport has ended.
    ReadPlaintext { at_end: bool },
    /// Suspend.
    Suspend,
    /// Fail with this error.
    Fail(StreamError),
}

/// A read of the stream: ciphertext is pulled while the engine wants it;
/// a transport that would suspend suspends the read; at the end of the
/// transport, and once the engine wants no more, the plaintext at hand is
/// handed out.
pub open spec fn read_next(last: Transfer, engine: Engine) -> ReadMove {
    match last {
        Transfer::Failed => ReadMove::Fail(StreamError::Io),
        Transfer::Blocked => ReadMove::Suspend,
        Transfer::Done(n) => if n != 0 && engine.wants_read {
            ReadMove::ReadTls
        } else {
            ReadMove::ReadPlaintext { at_end: n == 0 }
        },
        Transfer::Start => if engine.wants_read {
            ReadMove::ReadTls
        } else {
            ReadMove::ReadPlaintext { at_end: false }
        },
    }
}

/// Says what a read of the stream does next.
pub fn poll_read(last: Transfer, engine: Engine) -> (mv: ReadMove)
    ensures
        mv == read_next(last, engine),
{
    match last {
        Transfer::Failed => ReadMove::Fail(StreamError::Io),
        Transfer::Blocked => ReadMove::Suspend,
        Transfer::Done(n) => {
            if n != 0 && engine.wants_read {
                ReadMove::ReadTls
            } else {
                ReadMove::ReadPlaintext { at_end: n == 0 }
            }
        },
        Transfer::Start => {
            if engine.wants_read {
                ReadMove::ReadTls
            } else {
                ReadMove::ReadPlaintext { at_end: false }
            }
        },
    }
}

/// What the engine's plaintext reader gave to a read of the stream.
#[derive(Debug, PartialEq, Eq, Clone, Copy, Structural)]
pub enum Plaintext {
    /// This many bytes were copied into the caller's buffer; zero where
    /// the peer has closed the session.
    Got(usize),
    /// The engine has no plaintext at hand.
    Nothing,
    /// The reader failed.
    Failed,
}

/// How a read of the stream ends.
#[derive(Debug, PartialEq, Eq, Clone, Copy, Structural)]
pub enum ReadEnd {
    /// Return this many bytes; zero is the end of the stream.
    Return(usize),
    /// Suspend.
    Suspend,
    /// Fail with this error.
    Fail(StreamError),
}

/// The end of a read of the stream: plaintext at hand is handed out; where
/// there is none, the read reports the end of the stream if the transport
/// has ended, and suspends if it has not.
pub open spec fn read_end(at_end: bool, plain: Plaintext) -> ReadEnd {
    match plain {
        Plaintext::Got(n) => ReadEnd::Return(n),
        Plaintext::Nothing => if at_end {
            ReadEnd::Return(0)
        } else {
            ReadEnd::Suspend
        },
        Plaintext::Failed => ReadEnd::Fail(StreamError::Io),
    }
}

/// Says how a read of the stream ends, from whether the transport has
/// ended and from what the engine's plaintext reader gave.
pub fn finish_read(at_end: bool, plain: Plaintext) -> (end: ReadEnd)
    ensures
        end == read_end(at_end, plain),
{
    match plain {
        Plaintext::Got(n) => ReadEnd::Return(n),
        Plaintext::Nothing => {
            if at_end {
                ReadEnd::Return(0)
            } else {
                ReadEnd::Suspend
            }
        },
        Plaintext::Failed => ReadEnd::Fail(StreamError::Io),
    }
}

/// The end of the transport reaches the caller only once the plaintext at
/// hand is exhausted: a read at the end of the transport never suspends,
/// hands out what plaintext there is, and reports the end of the stream
/// only when there is none.
pub proof fn lemma_end_of_stream_after_plaintext(plain: Plaintext)
    ensures
        read_end(true, plain) != ReadEnd::Suspend,
        plain matches Plaintext::Got(n) ==> read_end(true, plain) == ReadEnd::Return(n),
        read_end(true, Plaintext::Nothing) == ReadEnd::Return(0),
{
}

/// What a flush of the stream does after flushing the engine's plaintext
/// writer.
#[derive(Debug, PartialEq, Eq, Clone, Copy, Structural)]
pub enum FlushMove {
    /// Flush the transport and return what it returns.
    FlushTransport,
    /// Suspend.
    Suspend,
    /// Fail with this error.
    Fail(StreamError),
}

/// A flush of the stream: the plaintext writer first, then the transport.
pub open spec fn flush_next(plain: Transfer) -> FlushMove {
    match plain {
        Transfer::Failed => FlushMove::Fail(StreamError::Io),
        Transfer::Blocked => FlushMove::Suspend,
        _ => FlushMove::FlushTransport,
    }
}

/// Says what a flush of the stream does once the plaintext writer has been
/// flushed.
pub fn poll_flush(plain: Transfer) -> (mv: FlushMove)
    ensures
        mv == flush_next(plain),
{
    match plain {
        Transfer::Failed => FlushMove::Fail(StreamError::Io),
        Transfer::Blocked => FlushMove::Suspend,
        _ => FlushMove::FlushTransport,
    }
}

/// What a write of the stream waits for.
#[derive(Debug, PartialEq, Eq, Clone, Copy, Structural)]
pub enum WritePhase {
    /// Nothing: a write begins.
    Idle,
    /// How many bytes the engine accepted.
    Encrypting,
    /// The outcome of writing ciphertext to the transport.
    Draining,
}

/// What a write of the stream does next.
#[derive(Debug, PartialEq, Eq, Clone, Copy, Structural)]
pub enum WriteMove {
    /// Hand the buffer from this position on to the engine's plaintext
    /// writer.
    Encrypt { from: usize },
    /// Write the engine's ciphertext to the transport.
    Drain,
    /// Suspend; the write goes on where it stands at the next poll.
    Suspend,
    /// Return this many bytes as accepted: the whole buffer.
    Finish(usize),
    /// Fail with this error.
    Fail(StreamError),
}

/// A write of the stream: the buffer goes to the engine piece by piece,
/// and after each piece the ciphertext that came of it goes to the
/// transport. What was accepted stays accepted while the write is
/// suspended.
#[derive(Debug, PartialEq, Eq, Clone, Copy, Structural)]
pub struct WriteDriver {
    pub phase: WritePhase,
    /// Bytes of the buffer that the engine has accepted.
    pub written: usize,
}

impl WriteDriver {
    /// A driver between two writes.
    pub open spec fn idle() -> WriteDriver {
        WriteDriver { phase: WritePhase::Idle, written: 0 }
    }

    /// Goes on with the buffer of length `len` once no ciphertext is left
    /// to write: the write is finished when the whole buffer was accepted.
    pub open spec fn carry_on(self, len: usize) -> (WriteDriver, WriteMove) {
        if self.written >= len {
            (WriteDriver::idle(), WriteMove::Finish(len))
        } else {
            (
                WriteDriver { phase: WritePhase::Encrypting, ..self },
                WriteMove::Encrypt { from: self.written },
            )
        }
    }

    /// The driver after `last`, for a buffer of length `len`, and what to
    /// do next. `Transfer::Start` begins a poll.
    pub open spec fn next(self, last: Transfer, engine: Engine, len: usize) -> (
        WriteDriver,
        WriteMove,
    ) {
        match self.phase {
            WritePhase::Idle => self.carry_on(len),
            WritePhase::Encrypting => match last {
                Transfer::Start => (self, WriteMove::Encrypt { from: self.written }),
                Transfer::Blocked => (self, WriteMove::Suspend),
                Transfer::Failed => (WriteDriver::idle(), WriteMove::Fail(StreamError::Io)),
                Transfer::Done(n) => {
                    let w = if n >= len - self.written {
                        len
                    } else {
                        (self.written + n) as usize
                    };
                    let m = WriteDriver { written: w, ..self };
                    if engine.wants_write {
                        (WriteDriver { phase: WritePhase::Draining, ..m }, WriteMove::Drain)
                    } else if n == 0 && w < len {
                        (WriteDriver::idle(), WriteMove::Fail(StreamError::WriteZero))
                    } else {
                        m.carry_on(len)
                    }
                },
            },
            WritePhase::Draining => match last {
                Transfer::Start => (self, WriteMove::Drain),
                Transfer::Blocked => (self, WriteMove::Suspend),
                Transfer::Failed => (WriteDriver::idle(), WriteMove::Fail(StreamError::Io)),
                Transfer::Done(n) => if n == 0 {
                    (WriteDriver::idle(), WriteMove::Fail(StreamError::WriteZero))
                } else if engine.wants_write {
                    (self, WriteMove::Drain)
                } else {
                    self.carry_on(len)
                },
            },
        }
    }

    /// Creates a driver between two writes.
    pub fn new() -> (d: Self)
        ensures
            d == WriteDriver::idle(),
    {
        WriteDriver { phase: WritePhase::Idle, written: 0 }
    }

    /// Takes how the last transfer went and says what the write of a buffer
    /// of length `len` does next.
    pub fn step(&mut self, last: Transfer, engine: Engine, len: usize) -> (mv: WriteMove)
        ensures
            (*final(self), mv) == old(self).next(last, engine, len),
    {
        match self.phase {
            WritePhase::Idle => self.proceed(len),
            WritePhase::Encrypting => match last {
                Transfer::Start => WriteMove::Encrypt { from: self.written },
                Transfer::Blocked => WriteMove::Suspend,
                Transfer::Failed => self.reset(WriteMove::Fail(StreamError::Io)),
                Transfer::Done(n) => {
                    if self.written >= len || n >= len - self.written {
                        self.written = len;
                    } else {
                        self.written = self.written + n;
                    }
                    if engine.wants_write {
                        self.phase = WritePhase::Draining;
                        WriteMove::Drain
                    } else if n == 0 && self.written < len {
                        self.reset(WriteMove::Fail(StreamError::WriteZero))
                    } else {
                        self.proceed(len)
                    }
                },
            },
            WritePhase::Draining => match last {
                Transfer::Start => WriteMove::Drain,
                Transfer::Blocked => WriteMove::Suspend,
                Transfer::Failed => self.reset(WriteMove::Fail(StreamError::Io)),
                Transfer::Done(n) => {
                    if n == 0 {
                        self.reset(WriteMove::Fail(StreamError::WriteZero))
                    } else if engine.wants_write {
                        WriteMove::Drain
                    } else {
                        self.proceed(len)
                    }
                },
            },
        }
    }

    /// Puts the driver between two writes and hands `mv` back.
    fn reset(&mut self, mv: WriteMove) -> (res: WriteMove)
        ensures
            *final(self) == WriteDriver::idle(),
            res == mv,
    {
        self.phase = WritePhase::Idle;
        self.written = 0;
        mv
    }

    /// Goes on with the buffer once no ciphertext is left to write.
    fn proceed(&mut self, len: usize) -> (mv: WriteMove)
        ensures
            (*final(self), mv) == old(self).carry_on(len),
    {
        if self.written >= len {
            self.reset(WriteMove::Finish(len))
        } else {
            self.phase = WritePhase::Encrypting;
            WriteMove::Encrypt { from: self.written }
        }
    }
}

/// A write never reports fewer bytes than the buffer holds, and what the
/// engine has accepted is kept while the write is suspended.
pub proof fn lemma_write_is_never_short(d: WriteDriver, last: Transfer, engine: Engine, len: usize)
    ensures
        d.next(last, engine, len).1 matches WriteMove::Finish(n) ==> n == len,
        d.next(last, engine, len).1 == WriteMove::Suspend ==> d.next(last, engine, len).0 == d,
        d.written <= len ==> (d.next(last, engine, len).1 matches WriteMove::Encrypt { from }
            ==> d.written <= from <= len),
{
}

} // verus!
