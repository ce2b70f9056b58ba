use rflow::client::{
    handshake_step, reader_step, with_default_port, Deadline, HandshakeState, ReaderStep,
};
use rflow::{ConnectionOptions, Direction, Error};

#[test]
fn options_defaults() {
    let opts = ConnectionOptions::new();
    assert_eq!(opts.timeout_ms, 5000);
    assert_eq!(opts.incoming_queue_size, 128);
}

#[test]
fn options_builders() {
    let opts = ConnectionOptions::new().timeout(250).incoming_queue_size(16);
    assert_eq!(opts.timeout_ms, 250);
    assert_eq!(opts.incoming_queue_size, 16);
}

#[test]
fn bare_host_gets_the_default_port() {
    assert_eq!(with_default_port(&b"example.com".to_vec()), b"example.com:4001".to_vec());
    assert_eq!(with_default_port(&b"10.0.0.1".to_vec()), b"10.0.0.1:4001".to_vec());
    assert_eq!(with_default_port(&b"example.com:9000".to_vec()), b"example.com:9000".to_vec());
    assert_eq!(with_default_port(&b"".to_vec()), b":4001".to_vec());
}

#[test]
fn deadline_counts_down_and_expires() {
    let deadline = Deadline::new(5000);
    assert_eq!(deadline.remaining_ms(0).unwrap(), 5000);
    assert_eq!(deadline.remaining_ms(1000).unwrap(), 4000);
    assert_eq!(deadline.remaining_ms(5000).unwrap(), 0);
    assert!(matches!(deadline.remaining_ms(5001), Err(Error::Timeout)));
    assert!(matches!(deadline.remaining_ms(u64::MAX), Err(Error::Timeout)));
}

#[test]
fn handshake_happy_path() {
    let s = handshake_step(HandshakeState::AwaitGreeting, &b"RFLOW/1".to_vec()).unwrap();
    assert_eq!(s, HandshakeState::AwaitHeaders);
    let s = handshake_step(s, &b"x-reserved: header".to_vec()).unwrap();
    assert_eq!(s, HandshakeState::AwaitHeaders);
    let s = handshake_step(s, &b"---".to_vec()).unwrap();
    assert_eq!(s, HandshakeState::Complete);
}

#[test]
fn handshake_tolerates_zero_headers() {
    let s = handshake_step(HandshakeState::AwaitGreeting, &b"RFLOW/1".to_vec()).unwrap();
    let s = handshake_step(s, &b"---".to_vec()).unwrap();
    assert_eq!(s, HandshakeState::Complete);
}

#[test]
fn handshake_rejects_bad_greeting() {
    assert!(matches!(
        handshake_step(HandshakeState::AwaitGreeting, &b"FOO/1".to_vec()),
        Err(Error::InvalidData)
    ));
    assert!(matches!(
        handshake_step(HandshakeState::AwaitGreeting, &b"".to_vec()),
        Err(Error::InvalidData)
    ));
}

#[test]
fn handshake_rejects_version_mismatch() {
    match handshake_step(HandshakeState::AwaitGreeting, &b"RFLOW/2".to_vec()) {
        Err(Error::ApiVersion(v)) => assert_eq!(v, 2),
        other => panic!("expected ApiVersion(2), got {:?}", other),
    }
    match handshake_step(HandshakeState::AwaitGreeting, &b"RFLOW/0".to_vec()) {
        Err(Error::ApiVersion(v)) => assert_eq!(v, 0),
        other => panic!("expected ApiVersion(0), got {:?}", other),
    }
}

#[test]
fn reader_delivers_prefixed_lines() {
    match reader_step(None, &b">>>hello".to_vec()) {
        ReaderStep::Deliver(d, p) => {
            assert_eq!(d, Direction::ClientToServer);
            assert_eq!(p, b"hello".to_vec());
        }
        ReaderStep::Terminate => panic!("prefixed line terminated the reader"),
    }
    match reader_step(None, &b"<<<hi".to_vec()) {
        ReaderStep::Deliver(d, p) => {
            assert_eq!(d, Direction::ServerToClient);
            assert_eq!(p, b"hi".to_vec());
        }
        ReaderStep::Terminate => panic!("prefixed line terminated the reader"),
    }
}

#[test]
fn reader_continuation_inherits_direction() {
    match reader_step(Some(Direction::ClientToServer), &b"a bare line".to_vec()) {
        ReaderStep::Deliver(d, p) => {
            assert_eq!(d, Direction::ClientToServer);
            assert_eq!(p, b"a bare line".to_vec());
        }
        ReaderStep::Terminate => panic!("continuation line terminated the reader"),
    }
    match reader_step(Some(Direction::ServerToClient), &b"another".to_vec()) {
        ReaderStep::Deliver(d, p) => {
            assert_eq!(d, Direction::ServerToClient);
            assert_eq!(p, b"another".to_vec());
        }
        ReaderStep::Terminate => panic!("continuation line terminated the reader"),
    }
}

#[test]
fn reader_terminates_on_continuation_without_direction() {
    assert!(matches!(reader_step(None, &b"orphan".to_vec()), ReaderStep::Terminate));
}
