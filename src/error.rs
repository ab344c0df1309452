use vstd::prelude::*;

verus! {

/// Why an operation of the engine failed.
#[derive(Debug, Clone, Copy, PartialEq, Eq, Structural)]
pub enum PeerError {
    /// Malformed metadata or tracker data.
    Parse,
    /// The transport to the peer could not be established.
    Connect,
    /// The peer broke the protocol: an unexpected message id, a truncated
    /// frame, a response that does not match its request, an early close.
    Protocol,
    /// An assembled piece does not have the expected SHA-1 digest.
    HashMismatch,
}

} // verus!
