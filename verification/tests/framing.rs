use rflow::framing::{classify_line, frame_message, handshake_message, parse_greeting, LineClass};
use rflow::{Direction, Error};

#[test]
fn handshake_is_exactly_greeting_then_headers_end() {
    assert_eq!(handshake_message(), b"RFLOW/1\n---\n".to_vec());
}

#[test]
fn direction_string_forms() {
    assert_eq!(Direction::ClientToServer.as_str(), ">>>");
    assert_eq!(Direction::ServerToClient.as_str(), "<<<");
    assert_eq!(Direction::ClientToServer.as_bytes(), b">>>");
    assert_eq!(Direction::ServerToClient.as_bytes(), b"<<<");
    assert_eq!(Direction::ClientToServer.as_char(), '>');
    assert_eq!(Direction::ServerToClient.as_char(), '<');
}

#[test]
fn frame_prefixes_payload_and_terminates() {
    assert_eq!(
        frame_message(Direction::ClientToServer, &b"hello".to_vec()),
        b">>>hello\n".to_vec()
    );
    assert_eq!(
        frame_message(Direction::ServerToClient, &b"hi".to_vec()),
        b"<<<hi\n".to_vec()
    );
    assert_eq!(frame_message(Direction::ClientToServer, &Vec::new()), b">>>\n".to_vec());
}

#[test]
fn classify_recognizes_both_prefixes() {
    match classify_line(&b">>>hello".to_vec()) {
        LineClass::Directed(d, p) => {
            assert_eq!(d, Direction::ClientToServer);
            assert_eq!(p, b"hello".to_vec());
        }
        LineClass::Bare => panic!("prefixed line classified as bare"),
    }
    match classify_line(&b"<<<hi".to_vec()) {
        LineClass::Directed(d, p) => {
            assert_eq!(d, Direction::ServerToClient);
            assert_eq!(p, b"hi".to_vec());
        }
        LineClass::Bare => panic!("prefixed line classified as bare"),
    }
}

#[test]
fn classify_round_trip_of_framed_message() {
    let framed = frame_message(Direction::ClientToServer, &b"a >>> quoted".to_vec());
    assert_eq!(*framed.last().unwrap(), b'\n');
    let line = framed[..framed.len() - 1].to_vec();
    match classify_line(&line) {
        LineClass::Directed(d, p) => {
            assert_eq!(d, Direction::ClientToServer);
            assert_eq!(p, b"a >>> quoted".to_vec());
        }
        LineClass::Bare => panic!("framed line classified as bare"),
    }
}

#[test]
fn classify_bare_lines() {
    assert!(matches!(classify_line(&b"hello".to_vec()), LineClass::Bare));
    assert!(matches!(classify_line(&b">>".to_vec()), LineClass::Bare));
    assert!(matches!(classify_line(&Vec::new()), LineClass::Bare));
    assert!(matches!(classify_line(&b"><>abc".to_vec()), LineClass::Bare));
}

#[test]
fn wire_round_trip_through_the_reader() {
    // what a writer frames, a reader classifies back unchanged
    for payload in [&b"hello"[..], b"", b"has <<< inside", b"<<<leading", b">>> nested"] {
        for dir in [Direction::ClientToServer, Direction::ServerToClient] {
            let framed = frame_message(dir, &payload.to_vec());
            assert_eq!(*framed.last().unwrap(), b'\n');
            let line = framed[..framed.len() - 1].to_vec();
            match rflow::client::reader_step(None, &line) {
                rflow::client::ReaderStep::Deliver(d, p) => {
                    assert_eq!(d, dir);
                    assert_eq!(p, payload.to_vec());
                }
                rflow::client::ReaderStep::Terminate => panic!("framed line not delivered"),
            }
        }
    }
}

#[test]
fn greeting_accepts_supported_forms() {
    assert_eq!(parse_greeting(&b"RFLOW/1".to_vec()).unwrap(), 1);
    assert_eq!(parse_greeting(&b"RFLOW/2".to_vec()).unwrap(), 2);
    assert_eq!(parse_greeting(&b"RFLOW/ 1 ".to_vec()).unwrap(), 1);
    assert_eq!(parse_greeting(&b"RFLOW/+1".to_vec()).unwrap(), 1);
    assert_eq!(parse_greeting(&b"RFLOW/255".to_vec()).unwrap(), 255);
    assert_eq!(parse_greeting(&b"RFLOW/007".to_vec()).unwrap(), 7);
    assert_eq!(parse_greeting(&b"RFLOW/1/future".to_vec()).unwrap(), 1);
}

#[test]
fn greeting_rejects_everything_else() {
    assert!(matches!(parse_greeting(&b"FOO/1".to_vec()), Err(Error::InvalidData)));
    assert!(matches!(parse_greeting(&b"RFLOW".to_vec()), Err(Error::InvalidData)));
    assert!(matches!(parse_greeting(&b"RFLOW/".to_vec()), Err(Error::InvalidData)));
    assert!(matches!(parse_greeting(&b"RFLOW/abc".to_vec()), Err(Error::InvalidData)));
    assert!(matches!(parse_greeting(&b"RFLOW/256".to_vec()), Err(Error::InvalidData)));
    assert!(matches!(parse_greeting(&b"RFLOW/-1".to_vec()), Err(Error::InvalidData)));
    assert!(matches!(parse_greeting(&b"rflow/1".to_vec()), Err(Error::InvalidData)));
    assert!(matches!(parse_greeting(&b"RFLOWX/1".to_vec()), Err(Error::InvalidData)));
    assert!(matches!(parse_greeting(&Vec::new()), Err(Error::InvalidData)));
}
