use vstd::prelude::*;

use crate::broker::{
    enqueue_spec, pull_spec, register_spec, relogin_spec, Broker, BrokerView,
};
use crate::msg::{Msg2C, Msg2CV, Msg2S, Msg2SV};

verus! {

/// The handshake state of one accepted connection.
///
/// A session awaits a `Login` frame; until one arrives every other frame
/// is answered with `AuthRequired` and nothing is registered, indefinitely.
/// After login the session dispatches frames against the broker under its
/// active id, which a later `Login` can change. `message_id` is the
/// session-local counter behind the server-assigned, monotonically
/// increasing message ids.
#[derive(Debug, Clone, PartialEq, Eq, Structural)]
pub struct Session {
    pub logged_in: bool,
    pub user_id: u64,
    pub message_id: u64,
}

/// How one inbound frame moves a session and the broker, and which reply
/// frame, if any, goes straight back to the client:
/// - before login, `Login` registers the connection's handle under the
///   claimed id; anything else draws `AuthRequired` and changes nothing;
/// - after login, `Msg` assigns the next message id and enqueues the
///   `Update` correlation and the routed `Msg`; `Login` applies the
///   re-login exchange; `Pull` drains the active id's mailbox onto the
///   queue; `Heartbeat` is discarded.
pub open spec fn session_step_spec(
    s: Session,
    b: BrokerView,
    frame: Msg2SV,
    handle: u64,
    ts: i64,
) -> (Session, BrokerView, Option<Msg2CV>) {
    if !s.logged_in {
        match frame {
            Msg2SV::Login { user_id } => (
                Session { logged_in: true, user_id, ..s },
                register_spec(b, user_id, handle),
                None,
            ),
            _ => (s, b, Some(Msg2CV::AuthRequired)),
        }
    } else {
        match frame {
            Msg2SV::Msg { fake_msg_id, to, len, msg } => (
                Session { message_id: (s.message_id + 1) as u64, ..s },
                enqueue_spec(
                    b,
                    s.user_id,
                    fake_msg_id,
                    (s.message_id + 1) as u64,
                    to,
                    ts,
                    len,
                    msg,
                ),
                None,
            ),
            Msg2SV::Login { user_id } => (
                Session { user_id, ..s },
                relogin_spec(b, s.user_id, user_id),
                None,
            ),
            Msg2SV::Pull => (s, pull_spec(b, s.user_id), None),
            Msg2SV::Beat => (s, b, None),
        }
    }
}

/// A session that has not logged in answers every frame but `Login` with
/// `AuthRequired` and leaves both itself and the broker untouched, so the
/// registry gains no entry for any id derived from that socket.
pub proof fn lemma_awaiting_login_rejects(
    s: Session,
    b: BrokerView,
    frame: Msg2SV,
    handle: u64,
    ts: i64,
)
    requires
        !s.logged_in,
        !(frame is Login),
    ensures
        session_step_spec(s, b, frame, handle, ts) == (s, b, Some(Msg2CV::AuthRequired)),
{
}

impl Session {
    /// A fresh session: unauthenticated, with no messages assigned yet.
    pub fn new() -> (s: Session)
        ensures
            s == (Session { logged_in: false, user_id: 0, message_id: 0 }),
    {
        Session { logged_in: false, user_id: 0, message_id: 0 }
    }

    /// Dispatches one inbound frame, moving this session and the broker
    /// exactly as `session_step_spec` says and returning the reply frame
    /// to write back, if any.
    pub fn handle_frame(
        &mut self,
        broker: &mut Broker,
        frame: Msg2S,
        handle: u64,
        ts: i64,
    ) -> (r: Option<Msg2C>)
        requires
            old(self).message_id < u64::MAX,
        ensures
            *final(self) == session_step_spec(*old(self), old(broker)@, frame@, handle, ts).0,
            final(broker)@ == session_step_spec(*old(self), old(broker)@, frame@, handle, ts).1,
            match (r, session_step_spec(*old(self), old(broker)@, frame@, handle, ts).2) {
                (Some(f), Some(v)) => f@ == v,
                (None, None) => true,
                _ => false,
            },
    {
        if !self.logged_in {
            match frame {
                Msg2S::Login { user_id } => {
                    broker.register(user_id, handle);
                    self.logged_in = true;
                    self.user_id = user_id;
                    None
                },
                _ => Some(Msg2C::AuthRequired),
            }
        } else {
            match frame {
                Msg2S::Msg { fake_msg_id, to, len, msg } => {
                    self.message_id = self.message_id + 1;
                    broker.enqueue_message(
                        self.user_id,
                        fake_msg_id,
                        self.message_id,
                        to,
                        ts,
                        len,
                        msg,
                    );
                    None
                },
                Msg2S::Login { user_id } => {
                    broker.relogin(self.user_id, user_id);
                    self.user_id = user_id;
                    None
                },
                Msg2S::Pull => {
                    broker.pull(self.user_id);
                    None
                },
                Msg2S::Beat => None,
            }
        }
    }
}

} // verus!
