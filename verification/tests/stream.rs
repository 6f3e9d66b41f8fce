use tunnel::stream::{
    complete_io, finish_read, poll_flush, poll_read, prep_read, Engine, FlushMove, Handshake,
    IoStage, Move, Outcome, Phase, Plaintext, Pump, ReadEnd, ReadMove, Ready, StreamError,
    Transfer, WriteDriver, WriteMove, WritePhase,
};
use tunnel::tls_client::{endpoint, endpoint_for, ConnectError};

use std::sync::Arc;

use rustls::{ClientConfig, ClientConnection, RootCertStore};
use rustls_pki_types::ServerName;

const HANDSHAKING_WRITE: Engine = Engine { wants_read: false, wants_write: true, handshaking: true };
const HANDSHAKING_READ: Engine = Engine { wants_read: true, wants_write: false, handshaking: true };
const HANDSHAKING_IDLE: Engine = Engine { wants_read: false, wants_write: false, handshaking: true };
const ESTABLISHED: Engine = Engine { wants_read: false, wants_write: false, handshaking: false };
const ESTABLISHED_READ: Engine = Engine { wants_read: true, wants_write: false, handshaking: false };
const ESTABLISHED_WRITE: Engine = Engine { wants_read: false, wants_write: true, handshaking: false };

#[test]
fn handshake_round_trip() {
    let mut hs = Handshake::new();
    assert_eq!(hs.phase, Phase::Idle);
    assert_eq!(hs.step(Transfer::Start, HANDSHAKING_WRITE), Move::WriteTls);
    assert_eq!(hs.step(Transfer::Done(200), HANDSHAKING_WRITE), Move::WriteTls);
    assert_eq!(hs.step(Transfer::Done(17), HANDSHAKING_READ), Move::Flush);
    assert_eq!(hs.step(Transfer::Done(0), HANDSHAKING_READ), Move::ReadTls);
    assert_eq!(hs.step(Transfer::Done(1000), HANDSHAKING_READ), Move::ReadTls);
    assert_eq!(hs.step(Transfer::Done(24), HANDSHAKING_WRITE), Move::WriteTls);
    assert_eq!(hs.step(Transfer::Done(80), ESTABLISHED), Move::Flush);
    assert_eq!(
        hs.step(Transfer::Done(0), ESTABLISHED),
        Move::Finish(Outcome::Ready { read: 1024, written: 297 })
    );
    assert_eq!(hs.phase, Phase::Finished(Outcome::Ready { read: 1024, written: 297 }));
    assert_eq!(
        hs.step(Transfer::Start, HANDSHAKING_WRITE),
        Move::Finish(Outcome::Ready { read: 1024, written: 297 })
    );
}

#[test]
fn handshake_suspends_without_progress() {
    let mut hs = Handshake::new();
    assert_eq!(hs.step(Transfer::Start, HANDSHAKING_READ), Move::ReadTls);
    assert_eq!(hs.step(Transfer::Blocked, HANDSHAKING_READ), Move::Finish(Outcome::Pending));

    let mut hs = Handshake::new();
    assert_eq!(hs.step(Transfer::Start, HANDSHAKING_WRITE), Move::WriteTls);
    assert_eq!(hs.step(Transfer::Blocked, HANDSHAKING_WRITE), Move::Finish(Outcome::Pending));

    let both = Engine { wants_read: true, wants_write: true, handshaking: true };
    let mut hs = Handshake::new();
    assert_eq!(hs.step(Transfer::Start, both), Move::WriteTls);
    assert_eq!(hs.step(Transfer::Blocked, both), Move::ReadTls);
    assert_eq!(hs.step(Transfer::Blocked, both), Move::Finish(Outcome::Pending));

    let mut hs = Handshake::new();
    assert_eq!(hs.step(Transfer::Start, HANDSHAKING_IDLE), Move::Finish(Outcome::Pending));
}

#[test]
fn handshake_yields_partial_progress() {
    let both = Engine { wants_read: true, wants_write: true, handshaking: true };
    let mut hs = Handshake::new();
    assert_eq!(hs.step(Transfer::Start, both), Move::WriteTls);
    assert_eq!(hs.step(Transfer::Done(10), both), Move::WriteTls);
    assert_eq!(hs.step(Transfer::Blocked, both), Move::Flush);
    assert_eq!(hs.step(Transfer::Blocked, both), Move::ReadTls);
    assert_eq!(
        hs.step(Transfer::Blocked, both),
        Move::Finish(Outcome::Ready { read: 0, written: 10 })
    );

    let mut hs = Handshake::new();
    assert_eq!(hs.step(Transfer::Start, HANDSHAKING_READ), Move::ReadTls);
    assert_eq!(hs.step(Transfer::Done(5), HANDSHAKING_READ), Move::ReadTls);
    assert_eq!(
        hs.step(Transfer::Blocked, HANDSHAKING_READ),
        Move::Finish(Outcome::Ready { read: 5, written: 0 })
    );
}

#[test]
fn handshake_failures() {
    let mut hs = Handshake::new();
    hs.step(Transfer::Start, HANDSHAKING_READ);
    assert_eq!(
        hs.step(Transfer::Done(0), HANDSHAKING_READ),
        Move::Finish(Outcome::Failed(StreamError::EofInHandshake))
    );
    let mut hs = Handshake::new();
    hs.step(Transfer::Start, HANDSHAKING_WRITE);
    assert_eq!(
        hs.step(Transfer::Done(0), HANDSHAKING_WRITE),
        Move::Finish(Outcome::Failed(StreamError::WriteZero))
    );
    let mut hs = Handshake::new();
    hs.step(Transfer::Start, HANDSHAKING_WRITE);
    assert_eq!(
        hs.step(Transfer::Failed, HANDSHAKING_WRITE),
        Move::Finish(Outcome::Failed(StreamError::Io))
    );
    let mut hs = Handshake::new();
    hs.step(Transfer::Start, HANDSHAKING_WRITE);
    hs.step(Transfer::Done(3), HANDSHAKING_READ);
    assert_eq!(
        hs.step(Transfer::Failed, HANDSHAKING_READ),
        Move::Finish(Outcome::Failed(StreamError::Io))
    );
    let mut hs = Handshake::new();
    hs.step(Transfer::Start, HANDSHAKING_READ);
    assert_eq!(
        hs.step(Transfer::Failed, HANDSHAKING_READ),
        Move::Finish(Outcome::Failed(StreamError::Io))
    );
}

#[test]
fn handshake_counts_saturate() {
    let mut hs = Handshake::new();
    hs.step(Transfer::Start, HANDSHAKING_READ);
    hs.step(Transfer::Done(usize::MAX), HANDSHAKING_READ);
    hs.step(Transfer::Done(5), HANDSHAKING_READ);
    assert_eq!(hs.read_len, usize::MAX);
}

#[test]
fn end_of_transport_after_the_handshake_is_no_error() {
    let mut hs = Handshake::new();
    assert_eq!(hs.step(Transfer::Start, ESTABLISHED_READ), Move::ReadTls);
    assert_eq!(
        hs.step(Transfer::Done(0), ESTABLISHED_READ),
        Move::Finish(Outcome::Ready { read: 0, written: 0 })
    );
    let mut hs = Handshake::new();
    assert_eq!(
        hs.step(Transfer::Start, ESTABLISHED),
        Move::Finish(Outcome::Ready { read: 0, written: 0 })
    );
}

#[test]
fn handshake_future() {
    let mut ready = Ready::Handshaking;
    assert_eq!(ready.poll(None, HANDSHAKING_WRITE), Pump::RunHandshake);
    assert_eq!(ready.poll(Some(Outcome::Pending), HANDSHAKING_READ), Pump::Suspend);
    assert!(!ready.is_done());
    assert_eq!(ready.poll(None, HANDSHAKING_READ), Pump::RunHandshake);
    assert_eq!(
        ready.poll(Some(Outcome::Ready { read: 9, written: 0 }), HANDSHAKING_WRITE),
        Pump::RunHandshake
    );
    assert_eq!(ready.poll(Some(Outcome::Ready { read: 0, written: 9 }), ESTABLISHED), Pump::Done);
    assert!(ready.is_done());

    let mut failing = Ready::Handshaking;
    assert_eq!(
        failing.poll(Some(Outcome::Failed(StreamError::EofInHandshake)), HANDSHAKING_READ),
        Pump::Fail(StreamError::EofInHandshake)
    );
    assert!(failing.is_done());

    let mut quick = Ready::Handshaking;
    assert_eq!(quick.poll(None, ESTABLISHED), Pump::Done);
}

#[test]
fn completing_io() {
    assert_eq!(complete_io(IoStage::Handshake, None, ESTABLISHED), (IoStage::Drain, Pump::Done));
    assert_eq!(
        complete_io(IoStage::Handshake, None, HANDSHAKING_READ),
        (IoStage::Handshake, Pump::RunHandshake)
    );
    assert_eq!(
        complete_io(IoStage::Handshake, None, ESTABLISHED_WRITE),
        (IoStage::Drain, Pump::RunHandshake)
    );
    let done = Some(Outcome::Ready { read: 1, written: 1 });
    assert_eq!(
        complete_io(IoStage::Handshake, done, ESTABLISHED_WRITE),
        (IoStage::Drain, Pump::RunHandshake)
    );
    assert_eq!(complete_io(IoStage::Handshake, done, ESTABLISHED), (IoStage::Drain, Pump::Done));
    assert_eq!(complete_io(IoStage::Drain, done, ESTABLISHED_WRITE), (IoStage::Drain, Pump::Done));
    assert_eq!(
        complete_io(IoStage::Handshake, Some(Outcome::Pending), HANDSHAKING_READ),
        (IoStage::Handshake, Pump::Suspend)
    );
    assert_eq!(
        complete_io(IoStage::Drain, Some(Outcome::Failed(StreamError::Io)), ESTABLISHED),
        (IoStage::Drain, Pump::Fail(StreamError::Io))
    );
}

#[test]
fn preparing_a_read() {
    assert_eq!(prep_read(None, ESTABLISHED), Pump::Done);
    assert_eq!(prep_read(None, ESTABLISHED_READ), Pump::RunHandshake);
    assert_eq!(
        prep_read(Some(Outcome::Ready { read: 3, written: 0 }), ESTABLISHED_READ),
        Pump::RunHandshake
    );
    assert_eq!(prep_read(Some(Outcome::Ready { read: 0, written: 3 }), ESTABLISHED_READ), Pump::Done);
    assert_eq!(prep_read(Some(Outcome::Ready { read: 3, written: 0 }), ESTABLISHED), Pump::Done);
    assert_eq!(prep_read(Some(Outcome::Pending), ESTABLISHED_READ), Pump::Suspend);
    assert_eq!(
        prep_read(Some(Outcome::Failed(StreamError::WriteZero)), ESTABLISHED_READ),
        Pump::Fail(StreamError::WriteZero)
    );
}

#[test]
fn reading_the_stream() {
    assert_eq!(poll_read(Transfer::Start, ESTABLISHED_READ), ReadMove::ReadTls);
    assert_eq!(poll_read(Transfer::Start, ESTABLISHED), ReadMove::ReadPlaintext { at_end: false });
    assert_eq!(poll_read(Transfer::Done(100), ESTABLISHED_READ), ReadMove::ReadTls);
    assert_eq!(
        poll_read(Transfer::Done(100), ESTABLISHED),
        ReadMove::ReadPlaintext { at_end: false }
    );
    assert_eq!(
        poll_read(Transfer::Done(0), ESTABLISHED_READ),
        ReadMove::ReadPlaintext { at_end: true }
    );
    assert_eq!(poll_read(Transfer::Blocked, ESTABLISHED_READ), ReadMove::Suspend);
    assert_eq!(poll_read(Transfer::Failed, ESTABLISHED_READ), ReadMove::Fail(StreamError::Io));
}

#[test]
fn flushing_the_stream() {
    assert_eq!(poll_flush(Transfer::Done(0)), FlushMove::FlushTransport);
    assert_eq!(poll_flush(Transfer::Start), FlushMove::FlushTransport);
    assert_eq!(poll_flush(Transfer::Blocked), FlushMove::Suspend);
    assert_eq!(poll_flush(Transfer::Failed), FlushMove::Fail(StreamError::Io));
}

#[test]
fn writing_the_stream() {
    let mut w = WriteDriver::new();
    assert_eq!(w.step(Transfer::Start, ESTABLISHED, 10), WriteMove::Encrypt { from: 0 });
    assert_eq!(w.step(Transfer::Done(6), ESTABLISHED_WRITE, 10), WriteMove::Drain);
    assert_eq!(w.step(Transfer::Done(30), ESTABLISHED_WRITE, 10), WriteMove::Drain);
    assert_eq!(w.step(Transfer::Done(12), ESTABLISHED, 10), WriteMove::Encrypt { from: 6 });
    assert_eq!(w.step(Transfer::Done(4), ESTABLISHED_WRITE, 10), WriteMove::Drain);
    assert_eq!(w.step(Transfer::Blocked, ESTABLISHED_WRITE, 10), WriteMove::Suspend);
    assert_eq!(w.written, 10);
    assert_eq!(w.phase, WritePhase::Draining);
    assert_eq!(w.step(Transfer::Start, ESTABLISHED_WRITE, 10), WriteMove::Drain);
    assert_eq!(w.step(Transfer::Done(40), ESTABLISHED, 10), WriteMove::Finish(10));
    assert_eq!(w, WriteDriver::new());
}

#[test]
fn writing_nothing_and_failing() {
    let mut w = WriteDriver::new();
    assert_eq!(w.step(Transfer::Start, ESTABLISHED, 0), WriteMove::Finish(0));
    let mut w = WriteDriver::new();
    w.step(Transfer::Start, ESTABLISHED, 3);
    assert_eq!(w.step(Transfer::Failed, ESTABLISHED, 3), WriteMove::Fail(StreamError::Io));
    assert_eq!(w, WriteDriver::new());
    let mut w = WriteDriver::new();
    w.step(Transfer::Start, ESTABLISHED, 3);
    assert_eq!(w.step(Transfer::Done(0), ESTABLISHED, 3), WriteMove::Fail(StreamError::WriteZero));
    let mut w = WriteDriver::new();
    w.step(Transfer::Start, ESTABLISHED, 3);
    w.step(Transfer::Done(3), ESTABLISHED_WRITE, 3);
    assert_eq!(w.step(Transfer::Done(0), ESTABLISHED_WRITE, 3), WriteMove::Fail(StreamError::WriteZero));
    let mut w = WriteDriver::new();
    w.step(Transfer::Start, ESTABLISHED, 3);
    w.step(Transfer::Done(3), ESTABLISHED_WRITE, 3);
    assert_eq!(w.step(Transfer::Failed, ESTABLISHED_WRITE, 3), WriteMove::Fail(StreamError::Io));
    let mut w = WriteDriver::new();
    w.step(Transfer::Start, ESTABLISHED, 3);
    assert_eq!(w.step(Transfer::Done(usize::MAX), ESTABLISHED, 3), WriteMove::Finish(3));
}

#[test]
fn endpoints() {
    assert_eq!(endpoint("www.rust-lang.org"), Ok("www.rust-lang.org:443".to_string()));
    assert_eq!(endpoint("127.0.0.1"), Ok("127.0.0.1:443".to_string()));
    assert_eq!(endpoint("not a host!"), Err(ConnectError::InvalidServerName));
    assert_eq!(endpoint(""), Err(ConnectError::InvalidServerName));
    assert_eq!(endpoint_for("h", true), Ok("h:443".to_string()));
    assert_eq!(endpoint_for("h", false), Err(ConnectError::InvalidServerName));
}

#[test]
fn engine_of_a_new_connection() {
    let config = ClientConfig::builder()
        .with_root_certificates(RootCertStore::empty())
        .with_no_client_auth();
    let name = ServerName::try_from("www.rust-lang.org").unwrap();
    let mut conn = ClientConnection::new(Arc::new(config), name).unwrap();
    assert_eq!(
        Engine::observe(&conn),
        Engine { wants_read: false, wants_write: true, handshaking: true }
    );
    let mut hs = Handshake::new();
    assert_eq!(hs.step(Transfer::Start, Engine::observe(&conn)), Move::WriteTls);
    let mut wire: Vec<u8> = Vec::new();
    let n = conn.write_tls(&mut wire).unwrap();
    assert!(n > 0);
    assert_eq!(
        Engine::observe(&conn),
        Engine { wants_read: true, wants_write: false, handshaking: true }
    );
    assert_eq!(hs.step(Transfer::Done(n), Engine::observe(&conn)), Move::Flush);
    assert_eq!(hs.step(Transfer::Done(0), Engine::observe(&conn)), Move::ReadTls);
    assert_eq!(
        hs.step(Transfer::Blocked, Engine::observe(&conn)),
        Move::Finish(Outcome::Ready { read: 0, written: n })
    );
}

#[test]
fn ending_a_read() {
    assert_eq!(finish_read(false, Plaintext::Got(12)), ReadEnd::Return(12));
    assert_eq!(finish_read(true, Plaintext::Got(12)), ReadEnd::Return(12));
    assert_eq!(finish_read(false, Plaintext::Got(0)), ReadEnd::Return(0));
    assert_eq!(finish_read(true, Plaintext::Nothing), ReadEnd::Return(0));
    assert_eq!(finish_read(false, Plaintext::Nothing), ReadEnd::Suspend);
    assert_eq!(finish_read(false, Plaintext::Failed), ReadEnd::Fail(StreamError::Io));
    assert_eq!(finish_read(true, Plaintext::Failed), ReadEnd::Fail(StreamError::Io));
}
