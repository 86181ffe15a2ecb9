//! Session engine for a one-to-one end-to-end-encrypted direct-message chat
//! over a decentralized relay network.
//!
//! The engine derives the role-tagged relay topology a session uses, builds
//! the subscription query for inbound envelopes, decides which unwrapped
//! messages are relevant to the configured peer, and drives the interactive
//! session loop as a pure state machine over local input, inbound
//! notifications and cancellation.  All I/O, key handling and cryptography
//! stay with outside collaborators; this crate holds the decisions.

pub mod cli;
pub mod errors;
pub mod filter;
pub mod keys;
pub mod relays;
pub mod session;
pub mod unwrap;
