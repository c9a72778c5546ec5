use vstd::prelude::*;

verus! {

/// Why an operation was rejected.  Every error aborts the whole operation;
/// the external ledger's atomic commit guarantees that no partial state
/// survives a failed operation.
#[derive(Clone, Copy, Debug, PartialEq, Eq, Structural)]
pub enum SocialError {
    /// Unknown record kind, malformed operation bytes, or a handle list with
    /// the wrong shape.
    InvalidArgument,
    /// A claimed record address does not match the derived address.
    InvalidAddress,
    /// No validity nonce in the bounded search space yields a usable address.
    AddressDerivationExhausted,
    /// The follower list is full, or a counter cannot grow any further.
    CapacityExceeded,
    /// The external ledger rejected the creation of a record buffer.  The
    /// library never raises this itself; the runtime maps the ledger's
    /// rejection to it.
    AllocationFailure,
    /// Stored bytes are inconsistent with the expected record layout.
    DecodeFailure,
    /// The operation is routed but has no channel to answer through.
    Unimplemented,
}

} // verus!
