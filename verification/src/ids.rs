//! Identities, derived account addresses, and the derived signing authority.
//!
//! A program-derived address is a deterministic, collision-free function of a
//! seed triple (role tag, owner identity, asset identity). The model keeps
//! the triple itself as the address, which makes determinism and
//! collision-freedom exact properties rather than probabilistic ones.

use vstd::prelude::*;
use crate::errors::ErrorCode;

verus! {

/// An opaque, globally unique, comparable principal reference: an account or
/// key. Used for owners, assets, buyers and sellers.
#[derive(Clone, Copy, PartialEq, Eq, Structural, Debug)]
pub struct Identity {
    pub key: u64,
}

/// The role tag of a derived address: each listing owns two program accounts
/// in two namespaces, the lock record and the vault.
#[derive(Clone, Copy, PartialEq, Eq, Structural, Debug)]
pub enum Tag {
    Lock,
    Vault,
}

/// The address of a program-derived account, modeled by the seed triple that
/// derives it. Addresses of lock records and vaults are always derivations,
/// never caller-supplied free-form keys: that binding is what prevents
/// substitution attacks.
#[derive(Clone, Copy, PartialEq, Eq, Structural, Debug)]
pub struct Address {
    pub tag: Tag,
    pub owner: Identity,
    pub asset: Identity,
}

/// What `derive` returns: the derived address and its bump. In this address
/// model every seed triple is valid at the smallest bump, zero.
pub open spec fn spec_derive(tag: Tag, owner: Identity, asset: Identity) -> (Address, u8) {
    (Address { tag, owner, asset }, 0u8)
}

/// Deterministic authority derivation: maps a seed triple to the derived
/// account address and the proof-of-derivation bump. Pure and total; the
/// caller persists the bump and must present it again on every signing use.
///
/// The `DerivationExhausted` failure arm of the result is how a host whose
/// validity predicate rejects every bump reports failure; in this address
/// model every triple is valid at bump zero, so the result is always `Ok`,
/// but callers still propagate the failure arm rather than assume it away.
pub fn derive(tag: Tag, owner: Identity, asset: Identity) -> (r: Result<(Address, u8), ErrorCode>)
    ensures
        r == Ok::<(Address, u8), ErrorCode>(spec_derive(tag, owner, asset)),
{
    Ok((Address { tag, owner, asset }, 0u8))
}

/// A signing capability for a derived address. Only `sign_as` constructs
/// one, and only against the correct bump: holding an `Authority` value is
/// the model of having reconstructed a valid derived signature. The field is
/// private so no other code can forge the capability.
#[derive(Clone, Copy)]
pub struct Authority {
    addr: Address,
}

impl Authority {
    /// The derived address this capability signs for.
    pub closed spec fn addr(self) -> Address {
        self.addr
    }
}

/// Reconstructs the signing credential for a derived address from its seeds
/// and a stored bump. Succeeds exactly when the presented bump is the one
/// the derivation chose; any other bump is rejected by the host, which here
/// surfaces as `None`.
pub fn sign_as(tag: Tag, owner: Identity, asset: Identity, bump: u8) -> (r: Option<Authority>)
    ensures
        r is Some <==> bump == spec_derive(tag, owner, asset).1,
        r matches Some(a) ==> a.addr() == spec_derive(tag, owner, asset).0,
{
    if bump == 0u8 {
        Some(Authority { addr: Address { tag, owner, asset } })
    } else {
        None
    }
}

/// Derivation stability, the collision-freedom half: two seed triples that
/// derive the same address are the same triple, so changing any one input
/// changes the address. (The determinism half is the contract of `derive`
/// itself: its result is a function of its inputs.)
pub proof fn lemma_derive_injective(
    t1: Tag, o1: Identity, a1: Identity,
    t2: Tag, o2: Identity, a2: Identity,
)
    requires
        spec_derive(t1, o1, a1).0 == spec_derive(t2, o2, a2).0,
    ensures
        t1 == t2 && o1 == o2 && a1 == a2,
{
}

} // verus!
