use vstd::prelude::*;

verus! {

/// The client console's state: the id the user claims to be logged in
/// under, and the id messages are currently addressed to. Both start
/// unset; how the state is rendered is the caller's affair.
#[derive(Debug, Clone)]
pub struct Console {
    pub user_id: Option<u64>,
    pub send_to: Option<u64>,
}

impl Console {
    /// A console with no login and no chat partner chosen.
    pub fn new() -> (c: Console)
        ensures
            c.user_id is None,
            c.send_to is None,
    {
        Console { user_id: None, send_to: None }
    }

    /// Records the id the user claims; the claim is sent to the server
    /// separately and is not a confirmation of login.
    pub fn login(&mut self, user_id: u64)
        ensures
            final(self).user_id == Some(user_id),
            final(self).send_to == old(self).send_to,
    {
        self.user_id = Some(user_id);
    }

    /// Changes the id outgoing messages are addressed to.
    pub fn send_to(&mut self, user_id: u64)
        ensures
            final(self).send_to == Some(user_id),
            final(self).user_id == old(self).user_id,
    {
        self.send_to = Some(user_id);
    }
}

} // verus!
