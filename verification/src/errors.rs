//! The error taxonomy of the three escrow operations.

use vstd::prelude::*;

verus! {

/// Why an operation was refused. Every error aborts the whole operation
/// with zero side effects on the ledger.
///
/// - Authorization: `Unauthorized`, `InvalidSeller` — the caller's identity
///   does not match the record's stored owner, or the wrong party signed.
/// - State: `AlreadyInitialized`, `NotListed`, `VaultMismatch`,
///   `DerivationMismatch` — the record is in the wrong lifecycle state or
///   bound to the wrong counterpart account.
/// - Resource: `InsufficientFunds`, `DerivationExhausted` — propagated from
///   the transfer primitive or the derivation function.
/// - Input validation: `InvalidPrice` — rejected before any mutation.
#[derive(Clone, Copy, PartialEq, Eq, Structural, Debug)]
pub enum ErrorCode {
    Unauthorized,
    InvalidSeller,
    AlreadyInitialized,
    NotListed,
    VaultMismatch,
    DerivationMismatch,
    InsufficientFunds,
    DerivationExhausted,
    InvalidPrice,
}

} // verus!
