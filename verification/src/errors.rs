use vstd::prelude::*;

verus! {

/// Failure taxonomy of the ingestion core.
///
/// Every variant is mapped to a single generic internal-error status at the
/// RPC boundary; the distinctions exist for callers inside the server, not
/// for the remote peer.
#[derive(Clone, Copy, PartialEq, Eq, Structural, Debug)]
pub enum ServiceError {
    /// Directory or named-pipe creation failed.
    Provisioning,
    /// The external transcoder process could not be started, or its process
    /// identifier could not be obtained.
    Spawn,
    /// The termination request could not be issued: the session had no
    /// recorded process identifier, or the signal could not be delivered.
    Termination,
    /// Unknown or no-longer-live session handle.
    SessionLookup,
    /// Malformed or failed read on the inbound chunk stream.
    Transport,
}

} // verus!
