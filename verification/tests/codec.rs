use my_chat::error::Error;
use my_chat::msg::{FrameMsg, Msg2C, Msg2S};
use my_chat::time::get_current_timestamp;

#[test]
fn test_msg2c() {
    let msg = "hello world!".to_string();
    let lst = vec![
        Msg2C::Msg {
            msg_id: 1234,
            from: 5678,
            ts: get_current_timestamp(),
            len: msg.bytes().len() as u64,
            msg,
        },
        Msg2C::Update {
            fake_msg_id: -1,
            real_msg_id: 99999,
        },
        Msg2C::Quit,
        Msg2C::OkFrame,
        Msg2C::ErrFrame,
        Msg2C::AuthRequired,
    ];

    for item in lst {
        let bytes = item.to_bytes();
        let mut pos: usize = 0;
        assert_eq!(item, Msg2C::parse(&bytes, &mut pos));
        assert_eq!(pos, bytes.len());
    }
}

#[test]
fn test_parse_msg2s() {
    let msg = "hello world!".to_string();
    let lst = vec![
        Msg2S::Msg {
            fake_msg_id: -1234,
            to: 5678,
            len: msg.bytes().len() as u64,
            msg,
        },
        Msg2S::Login { user_id: 88888 },
        Msg2S::Pull,
        Msg2S::Beat,
    ];

    for item in lst {
        let bytes = item.to_bytes();
        let mut pos: usize = 0;
        assert_eq!(item, Msg2S::parse(&bytes, &mut pos));
        assert_eq!(pos, bytes.len());
    }

    let mut pos: usize = 0;
    assert!(Msg2S::check(&b"e"[..], &mut pos).is_err());
    let mut pos: usize = 0;
    assert!(Msg2S::check(&b"l"[..], &mut pos).is_err());
    let mut pos: usize = 0;
    assert!(Msg2S::check(&b"p"[..], &mut pos).is_ok());
}

#[test]
fn test_cursor() {
    let buf = &b"hello world"[..];
    assert_eq!(buf.len(), 11);
    let mut pos: usize = 0;
    let b = my_chat::msg::get_u8(buf, &mut pos).unwrap();
    assert_eq!(b, b'h');
    assert_eq!(buf.len() - pos, 10);

    let eights = vec![255u8; 8];
    let mut pos: usize = 0;
    assert!(my_chat::msg::skip(&eights, &mut pos, 8).is_ok());
    assert_eq!(pos, 8);
    assert!(matches!(
        my_chat::msg::get_u8(&eights, &mut pos),
        Err(Error::Incomplete)
    ));
    assert!(matches!(
        my_chat::msg::skip(&eights, &mut pos, 1),
        Err(Error::Incomplete)
    ));
}

#[test]
fn test_zero_length_payload_round_trip() {
    let frame = Msg2C::Msg {
        msg_id: 1,
        from: 2,
        ts: 3,
        len: 0,
        msg: String::new(),
    };
    let bytes = frame.to_bytes();
    assert_eq!(bytes.len(), 33);
    let mut pos: usize = 0;
    assert!(Msg2C::check(&bytes, &mut pos).is_ok());
    let mut pos: usize = 0;
    assert_eq!(frame, Msg2C::parse(&bytes, &mut pos));

    let frame = Msg2S::Msg {
        fake_msg_id: -7,
        to: 9,
        len: 0,
        msg: String::new(),
    };
    let bytes = frame.to_bytes();
    assert_eq!(bytes.len(), 25);
    let mut pos: usize = 0;
    assert_eq!(frame, Msg2S::parse(&bytes, &mut pos));
}

#[test]
fn test_invalid_tag_is_fatal_not_incomplete() {
    let mut pos: usize = 0;
    match Msg2C::check(&b"x"[..], &mut pos) {
        Err(Error::Invalid(b)) => assert_eq!(b, b'x'),
        other => panic!("expected Invalid, got {:?}", other),
    }
    // A tag of the other family is invalid here, not incomplete.
    let mut pos: usize = 0;
    match Msg2S::check(&b"<"[..], &mut pos) {
        Err(Error::Invalid(b)) => assert_eq!(b, b'<'),
        other => panic!("expected Invalid, got {:?}", other),
    }
}

#[test]
fn test_truncation_incomplete_until_full() {
    let msg = "hi".to_string();
    let frame = Msg2S::Msg {
        fake_msg_id: -1,
        to: 2,
        len: msg.bytes().len() as u64,
        msg,
    };
    let bytes = frame.to_bytes();
    for cut in 0..bytes.len() {
        let mut pos: usize = 0;
        match Msg2S::check(&bytes[..cut], &mut pos) {
            Err(Error::Incomplete) => {}
            other => panic!("prefix of {} bytes: expected Incomplete, got {:?}", cut, other),
        }
        assert_eq!(pos, 0);
    }
    let mut pos: usize = 0;
    assert!(Msg2S::check(&bytes, &mut pos).is_ok());
    assert_eq!(pos, bytes.len());
}

#[test]
fn test_exact_wire_image() {
    // One frame checked byte for byte against the layout table.
    let frame = Msg2S::Login { user_id: 0x0102030405060708 };
    let bytes = frame.to_bytes();
    assert_eq!(bytes, vec![b'l', 1, 2, 3, 4, 5, 6, 7, 8]);

    let frame = Msg2C::Update {
        fake_msg_id: -2,
        real_msg_id: 1,
    };
    let bytes = frame.to_bytes();
    let mut expected = vec![b'u'];
    expected.extend((-2i64).to_be_bytes());
    expected.extend(1u64.to_be_bytes());
    assert_eq!(bytes, expected);

    let frame = Msg2C::Msg {
        msg_id: 1,
        from: 2,
        ts: -3,
        len: 2,
        msg: "hi".to_string(),
    };
    let bytes = frame.to_bytes();
    let mut expected = vec![b'<'];
    expected.extend(1u64.to_be_bytes());
    expected.extend(2u64.to_be_bytes());
    expected.extend((-3i64).to_be_bytes());
    expected.extend(2u64.to_be_bytes());
    expected.extend(b"hi");
    assert_eq!(bytes, expected);
}

#[test]
fn test_lossy_payload_decoding() {
    // An invalid byte sequence in the payload is replaced, never rejected.
    let mut bytes = vec![b'>'];
    bytes.extend((-1i64).to_be_bytes());
    bytes.extend(2u64.to_be_bytes());
    bytes.extend(1u64.to_be_bytes());
    bytes.push(0xff);
    let mut pos: usize = 0;
    assert!(Msg2S::check(&bytes, &mut pos).is_ok());
    let mut pos: usize = 0;
    match Msg2S::parse(&bytes, &mut pos) {
        Msg2S::Msg { msg, len, .. } => {
            assert_eq!(len, 1);
            assert_eq!(msg, "\u{fffd}");
        }
        other => panic!("expected Msg, got {:?}", other),
    }

    // Valid multi-byte UTF-8 survives the round trip.
    let text = "caf\u{e9} \u{1f600}".to_string();
    let frame = Msg2S::Msg {
        fake_msg_id: -1,
        to: 2,
        len: text.bytes().len() as u64,
        msg: text,
    };
    let bytes = frame.to_bytes();
    let mut pos: usize = 0;
    assert_eq!(frame, Msg2S::parse(&bytes, &mut pos));
}
