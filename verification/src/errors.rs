use vstd::prelude::*;

verus! {

/// Why a request against the ledger was refused. Every precondition check
/// fails fast: a request that errs leaves the store untouched.
#[derive(Clone, Copy, Debug, PartialEq, Eq, Structural)]
pub enum ErrorCode {
    /// A record already exists at the derived address: the identity was
    /// already initialized.
    AddressCollision,
    /// The funding identity cannot cover the storage cost. Resourcing is the
    /// host's concern; the core never raises this itself.
    AllocationFailure,
    /// The supplied record does not sit at the address the canonical
    /// derivation gives for its owner and nonce: a malformed or forged
    /// request.
    InvalidDerivation,
    /// The caller is not the identity bound to the record.
    InvalidAuthority,
    /// The check-in counter is at its maximum representable value and cannot
    /// be incremented.
    Overflow,
}

} // verus!
