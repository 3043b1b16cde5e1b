use my_chat::connection::Connection;
use my_chat::error::Error;
use my_chat::msg::{FrameMsg, Msg2C, Msg2S};

#[test]
fn test_split_at_every_boundary() {
    // Feeding the encoded bytes split at every possible byte boundary
    // yields the same decoded frame as a single read.
    let msg = "hello".to_string();
    let frame = Msg2S::Msg {
        fake_msg_id: -3,
        to: 44,
        len: msg.bytes().len() as u64,
        msg,
    };
    let bytes = frame.to_bytes();
    for cut in 0..=bytes.len() {
        let mut conn: Connection<Msg2S> = Connection::new();
        conn.feed(&bytes[..cut]);
        if cut < bytes.len() {
            match conn.parse_frame() {
                Ok(None) => {}
                other => panic!("split at {}: expected no frame yet, got {:?}", cut, other),
            }
        }
        conn.feed(&bytes[cut..]);
        match conn.parse_frame() {
            Ok(Some(parsed)) => assert_eq!(parsed, frame),
            other => panic!("split at {}: expected the frame, got {:?}", cut, other),
        }
        // Nothing is left over afterwards.
        match conn.parse_frame() {
            Ok(None) => {}
            other => panic!("split at {}: expected an empty buffer, got {:?}", cut, other),
        }
    }
}

#[test]
fn test_three_way_split() {
    let frame = Msg2C::Msg {
        msg_id: 9,
        from: 8,
        ts: 7,
        len: 3,
        msg: "abc".to_string(),
    };
    let bytes = frame.to_bytes();
    let mut conn: Connection<Msg2C> = Connection::new();
    conn.feed(&bytes[..1]);
    assert!(matches!(conn.parse_frame(), Ok(None)));
    conn.feed(&bytes[1..20]);
    assert!(matches!(conn.parse_frame(), Ok(None)));
    conn.feed(&bytes[20..]);
    match conn.parse_frame() {
        Ok(Some(parsed)) => assert_eq!(parsed, frame),
        other => panic!("expected the frame, got {:?}", other),
    }
}

#[test]
fn test_back_to_back_frames() {
    // Two frames fed in one chunk come out one at a time, in order.
    let first = Msg2S::Login { user_id: 7 };
    let second = Msg2S::Pull;
    let mut bytes = first.to_bytes();
    bytes.extend(second.to_bytes());
    let mut conn: Connection<Msg2S> = Connection::new();
    conn.feed(&bytes);
    assert_eq!(conn.parse_frame().unwrap(), Some(first));
    assert_eq!(conn.parse_frame().unwrap(), Some(second));
    assert_eq!(conn.parse_frame().unwrap(), None);
}

#[test]
fn test_invalid_tag_terminates() {
    let mut conn: Connection<Msg2S> = Connection::new();
    conn.feed(&b"z"[..]);
    match conn.parse_frame() {
        Err(Error::Invalid(b)) => assert_eq!(b, b'z'),
        other => panic!("expected Invalid, got {:?}", other),
    }
}

#[test]
fn test_clear_discards_buffered_bytes() {
    let mut conn: Connection<Msg2S> = Connection::new();
    conn.feed(&Msg2S::Pull.to_bytes());
    conn.clear();
    assert!(matches!(conn.parse_frame(), Ok(None)));
}
