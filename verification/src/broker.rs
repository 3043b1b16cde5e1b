use vstd::prelude::*;

use crate::msg::{FrameMsg, Msg2C, Msg2CV};
use std::collections::HashMap;
use std::collections::VecDeque;

verus! {

broadcast use vstd::std_specs::hash::group_hash_axioms;

/// The mathematical image of the relay broker.
///
/// `connected` is the registration table: a user id maps to `Some(handle)`
/// when its connection handle sits in the slot, and to `None` while a
/// delivery worker has the handle checked out; an absent key means the user
/// is offline. `queue` is the pending-delivery FIFO of
/// `(recipient, serialized frame)` pairs, front first. `mailboxes` holds,
/// per offline user, the frames accumulated for a later pull, in arrival
/// order.
#[verifier::ext_equal]
pub struct BrokerView {
    pub connected: Map<u64, Option<u64>>,
    pub queue: Seq<(u64, Seq<u8>)>,
    pub mailboxes: Map<u64, Seq<Seq<u8>>>,
}

/// The encoding of the `Update` frame that correlates a fake id with the
/// server-assigned id.
pub open spec fn update_frame(fake_msg_id: i64, real_msg_id: u64) -> Seq<u8> {
    <Msg2C as FrameMsg>::enc(Msg2CV::Update { fake_msg_id, real_msg_id })
}

/// The encoding of the routed `Msg` frame.
pub open spec fn msg_frame(msg_id: u64, from: u64, ts: i64, len: u64, msg: Seq<char>) -> Seq<u8> {
    <Msg2C as FrameMsg>::enc(Msg2CV::Msg { msg_id, from, ts, len, msg })
}

/// Installs or overwrites the registration for `user_id`.
pub open spec fn register_spec(b: BrokerView, user_id: u64, handle: u64) -> BrokerView {
    BrokerView { connected: b.connected.insert(user_id, Some(handle)), ..b }
}

/// Re-login under a new id: when the new id already has a registration,
/// that registration's handle moves to the old id's slot; otherwise nothing
/// changes in the table. The session's active id becomes the new one either
/// way.
pub open spec fn relogin_spec(b: BrokerView, old_id: u64, new_id: u64) -> BrokerView {
    if b.connected.contains_key(new_id) {
        BrokerView {
            connected: b.connected.remove(new_id).insert(old_id, b.connected[new_id]),
            ..b
        }
    } else {
        b
    }
}

/// Enqueues the `Update` correlation frame to the sender, then the routed
/// `Msg` frame to the recipient, in that order.
pub open spec fn enqueue_spec(
    b: BrokerView,
    sender_id: u64,
    fake_msg_id: i64,
    msg_id: u64,
    to: u64,
    ts: i64,
    len: u64,
    msg: Seq<char>,
) -> BrokerView {
    BrokerView {
        queue: b.queue + seq![
            (sender_id, update_frame(fake_msg_id, msg_id)),
            (to, msg_frame(msg_id, sender_id, ts, len, msg)),
        ],
        ..b
    }
}

/// Empties `user_id`'s mailbox and appends its frames, in their original
/// order, to the back of the queue; a user with no mailbox pulls nothing.
pub open spec fn pull_spec(b: BrokerView, user_id: u64) -> BrokerView {
    if b.mailboxes.contains_key(user_id) {
        BrokerView {
            queue: b.queue + b.mailboxes[user_id].map_values(|f: Seq<u8>| (user_id, f)),
            mailboxes: b.mailboxes.remove(user_id),
            ..b
        }
    } else {
        b
    }
}

/// Removes and yields the front of the queue, if any.
pub open spec fn pop_spec(b: BrokerView) -> (BrokerView, Option<(u64, Seq<u8>)>) {
    if b.queue.len() == 0 {
        (b, None)
    } else {
        (BrokerView { queue: b.queue.drop_first(), ..b }, Some(b.queue[0]))
    }
}

/// `frame` appended to `user_id`'s mailbox, created on first use.
pub open spec fn mailbox_append(
    m: Map<u64, Seq<Seq<u8>>>,
    user_id: u64,
    frame: Seq<u8>,
) -> Map<u64, Seq<Seq<u8>>> {
    let prior = if m.contains_key(user_id) {
        m[user_id]
    } else {
        Seq::empty()
    };
    m.insert(user_id, prior.push(frame))
}

/// What a delivery worker does with one dequeued frame: an offline
/// recipient's frame is stored in the mailbox, a checked-out handle means
/// try again later, and an available handle is checked out for writing.
#[derive(Debug, PartialEq, Eq, Structural)]
pub enum DeliverStep {
    StoredOffline,
    Busy,
    WriteNow(u64),
}

/// One attempt to place a dequeued frame: offline recipients get a mailbox
/// append, a busy handle leaves the broker unchanged, and an available
/// handle leaves its slot marked checked-out.
pub open spec fn deliver_step_spec(b: BrokerView, user_id: u64, frame: Seq<u8>) -> (
    BrokerView,
    DeliverStep,
) {
    if !b.connected.contains_key(user_id) {
        (
            BrokerView { mailboxes: mailbox_append(b.mailboxes, user_id, frame), ..b },
            DeliverStep::StoredOffline,
        )
    } else {
        match b.connected[user_id] {
            Some(h) => (
                BrokerView { connected: b.connected.insert(user_id, None), ..b },
                DeliverStep::WriteNow(h),
            ),
            None => (b, DeliverStep::Busy),
        }
    }
}

/// The end of a checked-out write: success restores the handle to its
/// slot; failure treats the connection as dead, removing the registration
/// and diverting the frame to the mailbox.
pub open spec fn finish_write_spec(
    b: BrokerView,
    user_id: u64,
    handle: u64,
    frame: Seq<u8>,
    success: bool,
) -> BrokerView {
    if success {
        BrokerView { connected: b.connected.insert(user_id, Some(handle)), ..b }
    } else {
        BrokerView {
            connected: b.connected.remove(user_id),
            mailboxes: mailbox_append(b.mailboxes, user_id, frame),
            ..b
        }
    }
}

/// Concurrent-checkout safety: once a delivery step has checked a handle
/// out, every further step for the same user finds the slot busy until the
/// handle is checked back in, so two workers never hold one connection's
/// handle at the same time.
pub proof fn lemma_checkout_exclusive(b: BrokerView, user_id: u64, f1: Seq<u8>, f2: Seq<u8>)
    ensures
        deliver_step_spec(b, user_id, f1).1 is WriteNow ==> deliver_step_spec(
            deliver_step_spec(b, user_id, f1).0,
            user_id,
            f2,
        ).1 == DeliverStep::Busy,
{
}

/// Checking the handle back in after a successful write releases the
/// slot: the next delivery step for that user checks the same handle out
/// again, so a busy wait is bounded by the handle's return.
pub proof fn lemma_checkin_releases(
    b: BrokerView,
    user_id: u64,
    handle: u64,
    f1: Seq<u8>,
    f2: Seq<u8>,
)
    ensures
        deliver_step_spec(
            finish_write_spec(b, user_id, handle, f1, true),
            user_id,
            f2,
        ).1 == DeliverStep::WriteNow(handle),
{
}

/// The relay broker: the registration table, the pending-delivery queue
/// and the offline mailbox store, shared by the per-connection sessions
/// and the pool of delivery workers.
#[derive(Debug)]
pub struct Broker {
    connected: HashMap<u64, Option<u64>>,
    queue: VecDeque<(u64, Vec<u8>)>,
    mailboxes: HashMap<u64, Vec<Vec<u8>>>,
}

impl View for Broker {
    type V = BrokerView;

    closed spec fn view(&self) -> BrokerView {
        BrokerView {
            connected: self.connected@,
            queue: self.queue@.map_values(|p: (u64, Vec<u8>)| (p.0, p.1@)),
            mailboxes: self.mailboxes@.map_values(|v: Vec<Vec<u8>>| v.deep_view()),
        }
    }
}

impl Broker {
    /// A broker with no registrations, no pending frames and no mailboxes.
    pub fn new() -> (b: Broker)
        ensures
            b@.connected == Map::<u64, Option<u64>>::empty(),
            b@.queue == Seq::<(u64, Seq<u8>)>::empty(),
            b@.mailboxes == Map::<u64, Seq<Seq<u8>>>::empty(),
    {
        let b = Broker { connected: HashMap::new(), queue: VecDeque::new(), mailboxes: HashMap::new() };
        proof {
            assert(b@.queue =~= Seq::<(u64, Seq<u8>)>::empty());
            assert(b@.connected =~= Map::<u64, Option<u64>>::empty());
            assert(b@.mailboxes =~= Map::<u64, Seq<Seq<u8>>>::empty());
        }
        b
    }

    /// Whether `user_id` currently has a registration, checked out or not.
    pub fn is_registered(&self, user_id: u64) -> (r: bool)
        ensures
            r == self@.connected.contains_key(user_id),
    {
        self.connected.contains_key(&user_id)
    }

    /// Installs or overwrites the registration for `user_id`.
    pub fn register(&mut self, user_id: u64, handle: u64)
        ensures
            final(self)@ == register_spec(old(self)@, user_id, handle),
    {
        self.connected.insert(user_id, Some(handle));
        proof {
            assert(self@ =~= register_spec(old(self)@, user_id, handle));
        }
    }

    /// Applies the re-login exchange: a registration already held by
    /// `new_id` is relocated to `old_id`'s slot.
    pub fn relogin(&mut self, old_id: u64, new_id: u64)
        ensures
            final(self)@ == relogin_spec(old(self)@, old_id, new_id),
    {
        let taken = self.connected.remove(&new_id);
        if let Some(client) = taken {
            self.connected.insert(old_id, client);
        }
        proof {
            assert(self@ =~= relogin_spec(old(self)@, old_id, new_id));
        }
    }

    /// Enqueues the `Update` correlation frame for the sender and the
    /// routed `Msg` frame for the recipient, in that order.
    pub fn enqueue_message(
        &mut self,
        sender_id: u64,
        fake_msg_id: i64,
        msg_id: u64,
        to: u64,
        ts: i64,
        len: u64,
        msg: String,
    )
        ensures
            final(self)@ == enqueue_spec(
                old(self)@,
                sender_id,
                fake_msg_id,
                msg_id,
                to,
                ts,
                len,
                msg@,
            ),
    {
        let ghost target = enqueue_spec(old(self)@, sender_id, fake_msg_id, msg_id, to, ts, len, msg@);
        let update = Msg2C::Update { fake_msg_id, real_msg_id: msg_id };
        let update_bytes = update.to_bytes();
        let routed = Msg2C::Msg { msg_id, from: sender_id, ts, len, msg };
        let routed_bytes = routed.to_bytes();
        self.queue.push_back((sender_id, update_bytes));
        self.queue.push_back((to, routed_bytes));
        proof {
            assert(self@ =~= target);
        }
    }

    /// Moves every frame of `user_id`'s mailbox, in order, to the back of
    /// the queue, emptying the mailbox; a user without one pulls nothing.
    pub fn pull(&mut self, user_id: u64)
        ensures
            final(self)@ == pull_spec(old(self)@, user_id),
    {
        let ghost target = pull_spec(old(self)@, user_id);
        let taken = self.mailboxes.remove(&user_id);
        if let Some(frames) = taken {
            let ghost base = self@.queue;
            let n = frames.len();
            let mut i: usize = 0;
            while i < n
                invariant
                    i <= n,
                    n == frames@.len(),
                    self@.connected == target.connected,
                    self@.mailboxes == target.mailboxes,
                    self@.queue =~~= base + frames.deep_view().map_values(
                        |f: Seq<u8>| (user_id, f),
                    ).take(i as int),
                decreases n - i,
            {
                let frame = frames[i].clone();
                proof {
                    assert(frames.deep_view().len() == n);
                    assert(self@.queue.len() == base.len() + i);
                    assert(frame@ =~= frames@[i as int]@);
                    assert(frames.deep_view()[i as int] =~= frames@[i as int]@);
                }
                self.queue.push_back((user_id, frame));
                i = i + 1;
                proof {
                    let mapped = frames.deep_view().map_values(|f: Seq<u8>| (user_id, f));
                    let last = i - 1;
                    assert(self@.queue.len() == base.len() + i);
                    assert(mapped.take(i as int).len() == i);
                    assert(self@.queue[base.len() + last] == (user_id, frames.deep_view()[last]));
                    assert(mapped.take(i as int)[last] == (user_id, frames.deep_view()[last]));
                    assert(forall|j: int| 0 <= j < base.len() + last ==> self@.queue[j] == (base
                        + mapped.take(last))[j]);
                    assert(self@.queue =~~= base + mapped.take(i as int));
                }
            }
            proof {
                assert(frames.deep_view().map_values(|f: Seq<u8>| (user_id, f)).take(n as int)
                    =~~= old(self)@.mailboxes[user_id].map_values(|f: Seq<u8>| (user_id, f)));
                assert(self@ =~~= target);
            }
        } else {
            proof {
                assert(self@ =~= target);
            }
        }
    }

    /// Removes and returns the front of the pending-delivery queue.
    pub fn pop_work(&mut self) -> (r: Option<(u64, Vec<u8>)>)
        ensures
            final(self)@ == pop_spec(old(self)@).0,
            match r {
                Some(item) => pop_spec(old(self)@).1 == Some((item.0, item.1@)),
                None => pop_spec(old(self)@).1 is None,
            },
    {
        let r = self.queue.pop_front();
        proof {
            assert(self@ =~= pop_spec(old(self)@).0);
        }
        r
    }

    /// One delivery attempt for a dequeued frame: stores it in the mailbox
    /// when the recipient is offline, reports a busy slot untouched, or
    /// checks the available handle out for the caller to write with.
    pub fn deliver_step(&mut self, user_id: u64, frame: &Vec<u8>) -> (r: DeliverStep)
        ensures
            final(self)@ == deliver_step_spec(old(self)@, user_id, frame@).0,
            r == deliver_step_spec(old(self)@, user_id, frame@).1,
    {
        let slot: Option<Option<u64>> = match self.connected.get(&user_id) {
            Some(v) => Some(*v),
            None => None,
        };
        match slot {
            None => {
                self.mailbox_push(user_id, frame.clone());
                proof {
                    assert(self@ =~= deliver_step_spec(old(self)@, user_id, frame@).0);
                }
                DeliverStep::StoredOffline
            },
            Some(None) => {
                proof {
                    assert(self@ =~= deliver_step_spec(old(self)@, user_id, frame@).0);
                }
                DeliverStep::Busy
            },
            Some(Some(h)) => {
                self.connected.insert(user_id, None);
                proof {
                    assert(self@ =~= deliver_step_spec(old(self)@, user_id, frame@).0);
                }
                DeliverStep::WriteNow(h)
            },
        }
    }

    /// Ends a checked-out write: on success the handle returns to its
    /// slot; on failure the registration is removed and the frame goes to
    /// the recipient's mailbox.
    pub fn finish_write(&mut self, user_id: u64, handle: u64, frame: &Vec<u8>, success: bool)
        requires
            old(self)@.connected.contains_key(user_id),
            old(self)@.connected[user_id] is None,
        ensures
            final(self)@ == finish_write_spec(old(self)@, user_id, handle, frame@, success),
    {
        if success {
            self.connected.insert(user_id, Some(handle));
        } else {
            self.connected.remove(&user_id);
            self.mailbox_push(user_id, frame.clone());
        }
        proof {
            assert(self@ =~= finish_write_spec(old(self)@, user_id, handle, frame@, success));
        }
    }

    /// Appends one frame to `user_id`'s mailbox, creating it on first use.
    fn mailbox_push(&mut self, user_id: u64, frame: Vec<u8>)
        ensures
            final(self)@.connected == old(self)@.connected,
            final(self)@.queue == old(self)@.queue,
            final(self)@.mailboxes == mailbox_append(old(self)@.mailboxes, user_id, frame@),
    {
        let taken = self.mailboxes.remove(&user_id);
        let mut entry: Vec<Vec<u8>> = match taken {
            Some(v) => v,
            None => Vec::new(),
        };
        entry.push(frame);
        self.mailboxes.insert(user_id, entry);
        proof {
            assert(self@.mailboxes =~~= mailbox_append(old(self)@.mailboxes, user_id, frame@));
        }
    }
}

} // verus!
