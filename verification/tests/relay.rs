use my_chat::broker::{Broker, DeliverStep};
use my_chat::msg::{FrameMsg, Msg2C, Msg2S};
use my_chat::session::Session;

#[test]
fn test_offline_then_pull() {
    // A message enqueued for user 7 while 7 is offline lands in 7's
    // mailbox, and is delivered exactly once, in order, after 7 registers
    // and pulls.
    let mut broker = Broker::new();
    let ts = 1000;
    broker.enqueue_message(1, -1, 1, 7, ts, 2, "hi".to_string());

    // The Update correlation frame goes to the sender, who is offline too.
    let (to, update_bytes) = broker.pop_work().unwrap();
    assert_eq!(to, 1);
    assert_eq!(
        update_bytes,
        Msg2C::Update { fake_msg_id: -1, real_msg_id: 1 }.to_bytes()
    );
    assert_eq!(broker.deliver_step(to, &update_bytes), DeliverStep::StoredOffline);

    // The routed message for 7 falls into 7's mailbox.
    let expected = Msg2C::Msg {
        msg_id: 1,
        from: 1,
        ts,
        len: 2,
        msg: "hi".to_string(),
    }
    .to_bytes();
    let (to, msg_bytes) = broker.pop_work().unwrap();
    assert_eq!(to, 7);
    assert_eq!(msg_bytes, expected);
    assert_eq!(broker.deliver_step(to, &msg_bytes), DeliverStep::StoredOffline);
    assert!(broker.pop_work().is_none());

    // 7 registers and pulls: exactly that message comes back out and is
    // checked out for writing to 7's connection.
    broker.register(7, 70);
    broker.pull(7);
    let (to, pulled) = broker.pop_work().unwrap();
    assert_eq!(to, 7);
    assert_eq!(pulled, expected);
    assert_eq!(broker.deliver_step(to, &pulled), DeliverStep::WriteNow(70));
    broker.finish_write(7, 70, &pulled, true);
    assert!(broker.pop_work().is_none());

    // A second pull finds an empty mailbox and enqueues nothing.
    broker.pull(7);
    assert!(broker.pop_work().is_none());
}

#[test]
fn test_pull_preserves_mailbox_order() {
    let mut broker = Broker::new();
    let a = Msg2C::OkFrame.to_bytes();
    let b = Msg2C::ErrFrame.to_bytes();
    assert_eq!(broker.deliver_step(3, &a), DeliverStep::StoredOffline);
    assert_eq!(broker.deliver_step(3, &b), DeliverStep::StoredOffline);
    broker.pull(3);
    assert_eq!(broker.pop_work().unwrap(), (3, a));
    assert_eq!(broker.pop_work().unwrap(), (3, b));
    assert!(broker.pop_work().is_none());
}

#[test]
fn test_concurrent_checkout_exclusion() {
    // Two workers racing to deliver to the same registered connection:
    // whoever checks the handle out first writes; the other sees Busy and
    // never holds the handle at the same time.
    let mut broker = Broker::new();
    broker.register(5, 50);
    let f1 = Msg2C::OkFrame.to_bytes();
    let f2 = Msg2C::ErrFrame.to_bytes();

    assert_eq!(broker.deliver_step(5, &f1), DeliverStep::WriteNow(50));
    assert_eq!(broker.deliver_step(5, &f2), DeliverStep::Busy);
    assert_eq!(broker.deliver_step(5, &f2), DeliverStep::Busy);

    // After check-in the second delivery proceeds.
    broker.finish_write(5, 50, &f1, true);
    assert_eq!(broker.deliver_step(5, &f2), DeliverStep::WriteNow(50));
    broker.finish_write(5, 50, &f2, true);
}

#[test]
fn test_failed_write_deregisters_and_diverts() {
    let mut broker = Broker::new();
    broker.register(5, 50);
    let f = Msg2C::Quit.to_bytes();
    assert_eq!(broker.deliver_step(5, &f), DeliverStep::WriteNow(50));
    broker.finish_write(5, 50, &f, false);
    assert!(!broker.is_registered(5));

    // The failed frame sits in the mailbox, ready for a later pull.
    broker.pull(5);
    assert_eq!(broker.pop_work().unwrap(), (5, f));
}

#[test]
fn test_login_send_enqueue_and_late_delivery() {
    // Client A logs in as id 1 and sends to=2, "hi": the server enqueues
    // Update{fake, real_id} to 1 and Msg{msg_id: 1, from: 1, "hi"} to 2;
    // 2 being unregistered, the Msg waits in 2's mailbox until 2 logs in
    // and pulls.
    let mut broker = Broker::new();
    let ts = 42;
    let mut session_a = Session::new();
    assert!(session_a
        .handle_frame(&mut broker, Msg2S::Login { user_id: 1 }, 10, ts)
        .is_none());
    assert!(broker.is_registered(1));
    assert!(session_a
        .handle_frame(
            &mut broker,
            Msg2S::Msg {
                fake_msg_id: -1,
                to: 2,
                len: 2,
                msg: "hi".to_string(),
            },
            10,
            ts,
        )
        .is_none());

    let (to, update) = broker.pop_work().unwrap();
    assert_eq!(to, 1);
    assert_eq!(
        update,
        Msg2C::Update { fake_msg_id: -1, real_msg_id: 1 }.to_bytes()
    );
    assert_eq!(broker.deliver_step(to, &update), DeliverStep::WriteNow(10));
    broker.finish_write(to, 10, &update, true);

    let expected = Msg2C::Msg {
        msg_id: 1,
        from: 1,
        ts,
        len: 2,
        msg: "hi".to_string(),
    }
    .to_bytes();
    let (to, routed) = broker.pop_work().unwrap();
    assert_eq!(to, 2);
    assert_eq!(routed, expected);
    assert_eq!(broker.deliver_step(to, &routed), DeliverStep::StoredOffline);

    // Only after 2 logs in and pulls does the message reach 2's socket.
    let mut session_b = Session::new();
    assert!(session_b
        .handle_frame(&mut broker, Msg2S::Login { user_id: 2 }, 20, ts)
        .is_none());
    assert!(session_b
        .handle_frame(&mut broker, Msg2S::Pull, 20, ts)
        .is_none());
    let (to, pulled) = broker.pop_work().unwrap();
    assert_eq!(to, 2);
    assert_eq!(pulled, expected);
    assert_eq!(broker.deliver_step(to, &pulled), DeliverStep::WriteNow(20));
}

#[test]
fn test_awaiting_login_rejects_and_registers_nothing() {
    // A session that sends Pull before logging in gets AuthRequired and
    // stays unauthenticated; the registry holds no entry for it.
    let mut broker = Broker::new();
    let mut session = Session::new();
    let reply = session.handle_frame(&mut broker, Msg2S::Pull, 30, 0);
    assert_eq!(reply, Some(Msg2C::AuthRequired));
    assert!(!session.logged_in);
    assert!(!broker.is_registered(0));
    assert!(broker.pop_work().is_none());

    // The same holds for a premature message or heartbeat, indefinitely.
    let frame = Msg2S::Msg {
        fake_msg_id: -1,
        to: 2,
        len: 0,
        msg: String::new(),
    };
    assert_eq!(
        session.handle_frame(&mut broker, frame, 30, 0),
        Some(Msg2C::AuthRequired)
    );
    assert_eq!(
        session.handle_frame(&mut broker, Msg2S::Beat, 30, 0),
        Some(Msg2C::AuthRequired)
    );
    assert!(!session.logged_in);
}

#[test]
fn test_heartbeat_is_discarded() {
    let mut broker = Broker::new();
    let mut session = Session::new();
    session.handle_frame(&mut broker, Msg2S::Login { user_id: 4 }, 40, 0);
    assert!(session
        .handle_frame(&mut broker, Msg2S::Beat, 40, 0)
        .is_none());
    assert!(broker.pop_work().is_none());
    assert!(broker.is_registered(4));
}

#[test]
fn test_relogin_exchanges_handles() {
    // Re-login with an id that is already registered relocates that
    // registration's handle to the old id's slot, and the session goes on
    // under the new id.
    let mut broker = Broker::new();
    let mut session = Session::new();
    session.handle_frame(&mut broker, Msg2S::Login { user_id: 1 }, 10, 0);
    broker.register(2, 20);

    session.handle_frame(&mut broker, Msg2S::Login { user_id: 2 }, 10, 0);
    assert_eq!(session.user_id, 2);
    // 2's old handle now sits in 1's slot; 2's slot is gone until a
    // delivery or re-registration fills it.
    let f = Msg2C::OkFrame.to_bytes();
    assert_eq!(broker.deliver_step(1, &f), DeliverStep::WriteNow(20));
    broker.finish_write(1, 20, &f, true);
    assert_eq!(broker.deliver_step(2, &f), DeliverStep::StoredOffline);

    // Re-login with an unregistered id changes only the session's id.
    session.handle_frame(&mut broker, Msg2S::Login { user_id: 9 }, 10, 0);
    assert_eq!(session.user_id, 9);
    assert!(broker.is_registered(1));
    assert!(!broker.is_registered(9));
}

#[test]
fn test_message_ids_are_monotonic() {
    let mut broker = Broker::new();
    let mut session = Session::new();
    session.handle_frame(&mut broker, Msg2S::Login { user_id: 1 }, 10, 5);
    for expected_id in 1..=3u64 {
        let frame = Msg2S::Msg {
            fake_msg_id: -(expected_id as i64),
            to: 2,
            len: 1,
            msg: "x".to_string(),
        };
        session.handle_frame(&mut broker, frame, 10, 5);
        let (_, update) = broker.pop_work().unwrap();
        assert_eq!(
            update,
            Msg2C::Update {
                fake_msg_id: -(expected_id as i64),
                real_msg_id: expected_id,
            }
            .to_bytes()
        );
        let (to, routed) = broker.pop_work().unwrap();
        assert_eq!(to, 2);
        assert_eq!(
            routed,
            Msg2C::Msg {
                msg_id: expected_id,
                from: 1,
                ts: 5,
                len: 1,
                msg: "x".to_string(),
            }
            .to_bytes()
        );
    }
}
