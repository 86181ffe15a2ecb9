//! Unwrapped messages and the second stage of the two-stage filter.
//!
//! The cryptographic collaborator unwraps an envelope into the inner
//! authenticated message, or fails; failed unwraps are silently discarded
//! (an expected, routine occurrence under the deliberately broad
//! subscription).  The engine then narrows the successfully unwrapped
//! messages: only a private direct message whose authenticated sender is
//! the configured peer is surfaced.

use vstd::prelude::*;
use crate::filter::PRIVATE_DM_KIND;
use crate::keys::PublicKeyId;

verus! {

/// The inner authenticated message recovered from an envelope: the true
/// sender, the inner event kind, the plaintext, and the sender's timestamp
/// in seconds.
#[derive(Debug, Clone, PartialEq, Eq)]
pub struct UnwrappedMessage {
    pub sender: PublicKeyId,
    pub kind: u16,
    pub content: String,
    pub timestamp: u64,
}

/// The mathematical value of an unwrapped message.
pub struct MessageV {
    pub sender: Seq<char>,
    pub kind: u16,
    pub content: Seq<char>,
    pub timestamp: u64,
}

impl View for UnwrappedMessage {
    type V = MessageV;

    open spec fn view(&self) -> MessageV {
        MessageV {
            sender: self.sender@,
            kind: self.kind,
            content: self.content@,
            timestamp: self.timestamp,
        }
    }
}

/// Whether an unwrapped message is surfaced to the user: exactly when its
/// authenticated sender is the configured peer and its inner kind is the
/// private-direct-message kind.
pub open spec fn spec_relevant(m: MessageV, peer: Seq<char>) -> bool {
    m.sender == peer && m.kind == PRIVATE_DM_KIND
}

/// The second stage of the two-stage filter, executably.
pub fn is_relevant(m: &UnwrappedMessage, peer: &PublicKeyId) -> (r: bool)
    ensures
        r == spec_relevant(m@, peer@),
{
    m.sender.same_as(peer) && m.kind == PRIVATE_DM_KIND
}

} // verus!
