//! Text addressed to every connected client.
use vstd::prelude::*;

verus! {

/// A human-readable status line to be sent to all connected clients.
pub struct MessageInternalAllClients {
    pub text: String,
}

impl MessageInternalAllClients {
    /// Wraps `text` for delivery to every session.
    pub fn new(text: String) -> (r: Self)
        ensures
            r.text@ == text@,
    {
        MessageInternalAllClients { text }
    }
}

} // verus!
