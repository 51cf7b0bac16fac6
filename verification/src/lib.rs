//! An on-ledger escrow marketplace for a single non-fungible asset per
//! listing: an owner deposits the asset into a program-controlled vault,
//! advertises a price, and a buyer atomically exchanges payment for custody.
//!
//! The library is the authorization and custody state machine. The host
//! ledger's transaction runtime (account locking, atomic commit, signature
//! checking of the raw request) is an external collaborator: each operation
//! here is a single run-to-completion function on an explicit ledger model,
//! and every error leaves the model unchanged, mirroring the host's
//! all-or-nothing transaction semantics.

pub mod errors;
pub mod ids;
pub mod records;
pub mod store;
pub mod ledger;
pub mod laws;
