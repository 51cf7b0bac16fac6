//! The durable records of a listing and the three request types.

use vstd::prelude::*;
use crate::ids::{Address, Authority, Identity};

verus! {

/// The durable record describing one listing: who created it, which asset it
/// escrows, the advertised price, and the binding to exactly one vault.
/// `owner`, `mint_address` and the vault binding are immutable after
/// creation; `price` is set by List, read by Buy, and zero while unlisted.
#[derive(Clone, Copy, PartialEq, Eq, Structural, Debug)]
pub struct LockAccount {
    pub owner: Identity,
    pub mint_address: Identity,
    pub price: u64,
    pub vault_address: Address,
    pub vault_bump: u8,
}

/// A program-controlled custody account. Its only valid signer is the
/// derived authority stored in `authority`; no human-held key controls it.
/// It holds either nothing (pre-List, post-Buy) or exactly the one escrowed
/// unit (post-List, pre-Buy).
#[derive(Clone, Copy, PartialEq, Eq, Structural, Debug)]
pub struct Vault {
    pub authority: Address,
    pub mint: Identity,
    pub amount: u64,
}

impl Vault {
    /// Releases the vault's whole holding and returns how much was released.
    /// Moving anything out of custody demands the vault's own derived
    /// signing authority: presenting the capability is a precondition rather
    /// than a runtime check, because `sign_as` is the only constructor of
    /// `Authority`, and it hands the capability out only against the correct
    /// derivation bump.
    pub fn withdraw_all(&mut self, auth: &Authority) -> (r: u64)
        requires
            auth.addr() == old(self).authority,
        ensures
            final(self).authority == old(self).authority,
            final(self).mint == old(self).mint,
            final(self).amount == 0,
            r == old(self).amount,
    {
        let r = self.amount;
        self.amount = 0;
        r
    }
}

/// One listing's pair of program accounts. The lock record and the vault are
/// created together by Initialize and bound to each other for life, so the
/// ledger stores them as one entry under the (owner, asset) pair that seeds
/// both of their derived addresses.
#[derive(Clone, Copy, PartialEq, Eq, Structural, Debug)]
pub struct ListingState {
    pub rec: LockAccount,
    pub vault: Vault,
}

/// The Initialize request: create the lock record and vault for
/// (`owner`, `mint_address`). `signer` is the identity whose signature the
/// host verified on the raw request; the operation checks it equals `owner`.
#[derive(Clone, Copy, PartialEq, Eq, Structural, Debug)]
pub struct Initialize {
    pub signer: Identity,
    pub owner: Identity,
    pub mint_address: Identity,
}

/// The List request: escrow the asset into the vault and advertise `price`.
/// `lock_address` and `vault_address` are the caller's handles to the two
/// program accounts; the operation checks them against the stored binding.
#[derive(Clone, Copy, PartialEq, Eq, Structural, Debug)]
pub struct ListNFT {
    pub signer: Identity,
    pub lock_address: Address,
    pub vault_address: Address,
    pub price: u64,
}

/// The Buy request: pay the seller and release custody to the buyer.
/// `seller` is the claimed owner, validated against the lock record;
/// `lock_bump` is the persisted proof-of-derivation bump the buyer presents
/// to reconstruct the vault's signing authority.
#[derive(Clone, Copy, PartialEq, Eq, Structural, Debug)]
pub struct Buy {
    pub signer: Identity,
    pub buyer: Identity,
    pub seller: Identity,
    pub lock_address: Address,
    pub vault_address: Address,
    pub lock_bump: u8,
}

} // verus!
