//! The inbound subscription query.
//!
//! The relay cannot see who sent an envelope or which peer it concerns, so
//! the subscription deliberately over-matches: every gift-wrap envelope
//! addressed to the local identity, with no history backfill.  Narrowing to
//! the configured peer happens after unwrapping (see `unwrap`).

use vstd::prelude::*;
use crate::keys::PublicKeyId;

verus! {

/// The wire kind of a gift-wrap envelope: the outer encrypted container.
pub const GIFT_WRAP_KIND: u16 = 1059;

/// The wire kind of an inner private direct message.
pub const PRIVATE_DM_KIND: u16 = 14;

/// A subscription query handed to the relay-pool collaborator: match
/// events of one kind addressed to one identity, returning at most
/// `limit` past events before going live.
#[derive(Debug, Clone)]
pub struct SubscriptionQuery {
    pub kind: u16,
    pub recipient: PublicKeyId,
    pub limit: u64,
}

/// Build the session's subscription query: gift-wrap envelopes addressed
/// to the local identity, live only (no backfill, hence limit zero).
pub fn compose_envelope_filter(local: &PublicKeyId) -> (q: SubscriptionQuery)
    ensures
        q.kind == GIFT_WRAP_KIND,
        q.recipient@ == local@,
        q.limit == 0,
{
    SubscriptionQuery {
        kind: GIFT_WRAP_KIND,
        recipient: PublicKeyId { encoded: local.encoded.clone() },
        limit: 0,
    }
}

/// Whether an inbound event of kind `kind` is worth an unwrap attempt:
/// only gift-wrap envelopes are.
pub fn should_attempt_unwrap(kind: u16) -> (r: bool)
    ensures
        r == (kind == GIFT_WRAP_KIND),
{
    kind == GIFT_WRAP_KIND
}

} // verus!
