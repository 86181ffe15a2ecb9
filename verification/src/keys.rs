//! Public identities as the engine sees them.
//!
//! Key generation, secret-key handling and bech32/hex encoding belong to an
//! outside collaborator; the engine only ever compares public identities for
//! equality.  A `PublicKeyId` therefore carries the collaborator's canonical
//! encoding of a public key as plain text.

use vstd::prelude::*;

verus! {

/// A public identity, held as the canonical encoded form of its public key.
///
/// Two identities are the same exactly when their encodings are equal
/// character for character; the engine never inspects the encoding further.
#[derive(Debug, Clone, PartialEq, Eq)]
pub struct PublicKeyId {
    pub encoded: String,
}

impl View for PublicKeyId {
    type V = Seq<char>;

    open spec fn view(&self) -> Seq<char> {
        self.encoded@
    }
}

impl PublicKeyId {
    /// Wrap a collaborator-provided canonical key encoding.
    pub fn new(encoded: String) -> (r: PublicKeyId)
        ensures
            r@ == encoded@,
    {
        PublicKeyId { encoded }
    }

    /// Whether `self` and `other` name the same identity.
    pub fn same_as(&self, other: &PublicKeyId) -> (r: bool)
        ensures
            r == (self@ == other@),
    {
        self.encoded == other.encoded
    }
}

} // verus!
