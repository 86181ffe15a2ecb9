//! Validated startup configuration.
//!
//! Argument parsing, key prompting and other startup plumbing stay outside
//! the engine; what reaches it is this already-parsed record of the user's
//! declarations, from which the session's relay topology is composed.

use vstd::prelude::*;
use crate::errors::AppError;
use crate::relays::{RelaySet, compose_topology, spec_read_relays, spec_write_relays};

verus! {

/// The user's declarations, as parsed by the startup code.
#[derive(Debug, Clone)]
pub struct Args {
    /// The local secret key's encoded form, if given on the command line.
    pub nsec: Option<String>,
    /// The recipient's encoded public identity, if given on the command
    /// line.
    pub npub: Option<String>,
    /// The message relays: the peer's (or fallback) relays designated for
    /// the private-messaging protocol.  Must not be empty.
    pub dm_relays: Vec<String>,
    /// Extra relays to read from, besides the message relays.
    pub read_relays: Vec<String>,
    /// Extra relays to write to, besides the message relays and the fixed
    /// public fallbacks.
    pub write_relays: Vec<String>,
    /// Whether inbound envelopes are accepted.  The session services
    /// inbound notifications unconditionally; the flag is recorded as
    /// declared.
    pub listen: bool,
    /// Whether the session ends after one successful send.
    pub one_shot: bool,
}

/// The command to run.
#[derive(Debug, Clone, Copy, PartialEq, Eq, Structural)]
pub enum Cmd {
    /// Start an interactive chat with one peer.
    Chat,
}

impl Args {
    /// Compose the session's relay topology from these declarations: read
    /// role from the message relays and extra read relays, write role from
    /// the message relays, the fixed public fallbacks and the extra write
    /// relays.  Fails with `ConfigurationError` exactly when no message
    /// relay was declared.
    pub fn relay_topology(&self) -> (r: Result<RelaySet, AppError>)
        ensures
            r is Err <==> self.dm_relays@.len() == 0,
            r matches Err(e) ==> e is ConfigurationError,
            r matches Ok(rs) ==> {
                &&& rs.read.deep_view() == spec_read_relays(
                    self.dm_relays.deep_view(),
                    self.read_relays.deep_view(),
                )
                &&& rs.write.deep_view() == spec_write_relays(
                    self.dm_relays.deep_view(),
                    self.write_relays.deep_view(),
                )
                &&& rs.wf()
            },
    {
        compose_topology(&self.dm_relays, &self.read_relays, &self.write_relays)
    }
}

} // verus!
