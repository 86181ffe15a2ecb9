//! The envelope unwrapper against the real cryptographic collaborator:
//! an envelope addressed to someone else fails cleanly, and a genuine
//! envelope yields the authenticated sender, which the engine then narrows
//! to the configured peer.

use nostr::event::{FinalizeEvent, Kind};
use nostr::key::Keys;
use nostr::nips::nip17::PrivateDirectMessageBuilder;
use nostr::nips::nip59::UnwrappedGift;
use nostrdm::filter::{GIFT_WRAP_KIND, PRIVATE_DM_KIND};
use nostrdm::keys::PublicKeyId;
use nostrdm::unwrap::{UnwrappedMessage, is_relevant};

#[test]
fn envelope_for_someone_else_never_unwraps() {
    let sender = Keys::generate();
    let recipient = Keys::generate();
    let local = Keys::generate();
    let envelope = PrivateDirectMessageBuilder::new(recipient.public_key(), "for R only")
        .finalize(&sender)
        .expect("wrapping must succeed");
    assert_eq!(envelope.kind.as_u16(), GIFT_WRAP_KIND);
    // The local identity is not the addressee: the unwrap fails cleanly,
    // yielding no sender identity at all.
    assert!(UnwrappedGift::from_gift_wrap(&local, &envelope).is_err());
}

#[test]
fn recipient_unwraps_and_the_engine_narrows_to_the_peer() {
    let sender = Keys::generate();
    let third_party = Keys::generate();
    let recipient = Keys::generate();
    let envelope = PrivateDirectMessageBuilder::new(recipient.public_key(), "hello over nip-17")
        .finalize(&sender)
        .expect("wrapping must succeed");

    let unwrapped = UnwrappedGift::from_gift_wrap(&recipient, &envelope)
        .expect("the addressee must be able to unwrap");
    assert_eq!(unwrapped.sender, sender.public_key());
    assert_eq!(unwrapped.rumor.kind, Kind::PrivateDirectMessage);
    assert_eq!(unwrapped.rumor.content, "hello over nip-17");

    let message = UnwrappedMessage {
        sender: PublicKeyId::new(unwrapped.sender.to_hex()),
        kind: unwrapped.rumor.kind.as_u16(),
        content: unwrapped.rumor.content.clone(),
        timestamp: unwrapped.rumor.created_at.as_secs(),
    };
    assert_eq!(message.kind, PRIVATE_DM_KIND);
    let peer = PublicKeyId::new(sender.public_key().to_hex());
    let not_the_peer = PublicKeyId::new(third_party.public_key().to_hex());
    assert!(is_relevant(&message, &peer));
    assert!(!is_relevant(&message, &not_the_peer));
}
