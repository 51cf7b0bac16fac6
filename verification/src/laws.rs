//! The laws of the escrow state machine, proved over the operation
//! transitions that the executable operations are specified against.

use vstd::prelude::*;
use crate::errors::ErrorCode;
use crate::ids::{Identity, Tag, spec_derive};
use crate::records::{Buy, Initialize, ListNFT};
use crate::ledger::{
    LedgerView, apply_buy, apply_initialize, apply_list, listing_ok, seed_pair, view_wf,
};

verus! {

/// Uniqueness: for every (owner, asset) pair at most one lock record can be
/// created. A second Initialize for a pair that already has one fails with
/// `AlreadyInitialized` and changes nothing, however the first record got
/// there.
pub proof fn lemma_initialize_unique(v: LedgerView, req: Initialize)
    requires
        req.signer == req.owner,
        v.listings.contains_key((req.owner, req.mint_address)),
    ensures
        apply_initialize(v, req) == (v, Err::<(), ErrorCode>(ErrorCode::AlreadyInitialized)),
{
}

/// Listing authorization: List fails with `Unauthorized` exactly when the
/// signer is not the lock record's stored owner, and such a failure touches
/// nothing.
pub proof fn lemma_list_requires_owner(v: LedgerView, req: ListNFT)
    requires
        v.listings.contains_key(seed_pair(req.lock_address)),
    ensures
        req.signer != v.listings[seed_pair(req.lock_address)].rec.owner ==> apply_list(v, req)
            == (v, Err::<(), ErrorCode>(ErrorCode::Unauthorized)),
        apply_list(v, req).1 == Err::<(), ErrorCode>(ErrorCode::Unauthorized) ==> req.signer
            != v.listings[seed_pair(req.lock_address)].rec.owner,
{
}

/// Impersonation: Buy with a claimed seller that does not match the lock
/// record's stored owner fails with `InvalidSeller` and changes nothing,
/// even when the lock and vault handles are otherwise valid.
pub proof fn lemma_buy_impersonation(v: LedgerView, req: Buy)
    requires
        v.listings.contains_key(seed_pair(req.lock_address)),
        req.seller != v.listings[seed_pair(req.lock_address)].rec.owner,
    ensures
        apply_buy(v, req) == (v, Err::<(), ErrorCode>(ErrorCode::InvalidSeller)),
{
}

/// Unlisted purchase: Buy against a record whose price is still unset fails
/// with `NotListed`, and no transfer occurs.
pub proof fn lemma_buy_unlisted(v: LedgerView, req: Buy)
    requires
        v.listings.contains_key(seed_pair(req.lock_address)),
        v.listings[seed_pair(req.lock_address)].rec.price == 0,
        req.seller == v.listings[seed_pair(req.lock_address)].rec.owner,
        req.signer == req.buyer,
        req.vault_address == v.listings[seed_pair(req.lock_address)].rec.vault_address,
    ensures
        apply_buy(v, req) == (v, Err::<(), ErrorCode>(ErrorCode::NotListed)),
{
}

/// Atomicity: an Initialize that fails has no effect on the ledger.
pub proof fn lemma_initialize_atomic(v: LedgerView, req: Initialize)
    ensures
        apply_initialize(v, req).1 is Err ==> apply_initialize(v, req).0 == v,
{
}

/// Atomicity: a List that fails has no effect on the ledger.
pub proof fn lemma_list_atomic(v: LedgerView, req: ListNFT)
    ensures
        apply_list(v, req).1 is Err ==> apply_list(v, req).0 == v,
{
}

/// Atomicity: a Buy that fails has no effect on the ledger.
pub proof fn lemma_buy_atomic(v: LedgerView, req: Buy)
    ensures
        apply_buy(v, req).1 is Err ==> apply_buy(v, req).0 == v,
{
}

/// Initialize preserves well-formedness: on a well-formed ledger the new
/// lock record and vault come out bound to each other, named after their
/// seed pair, unlisted and empty.
pub proof fn lemma_initialize_preserves_wf(v: LedgerView, req: Initialize)
    requires
        view_wf(v),
    ensures
        view_wf(apply_initialize(v, req).0),
{
    let v2 = apply_initialize(v, req).0;
    assert forall|p: (Identity, Identity)| #[trigger] v2.listings.contains_key(p)
        implies listing_ok(p.0, p.1, v2.listings[p]) by {
        if p != (req.owner, req.mint_address) {
            assert(v.listings.contains_key(p));
        }
    }
}

/// List preserves well-formedness: in particular the vault of a listed
/// record holds exactly the one escrowed unit.
pub proof fn lemma_list_preserves_wf(v: LedgerView, req: ListNFT)
    requires
        view_wf(v),
        v.listings.contains_key(seed_pair(req.lock_address)),
    ensures
        view_wf(apply_list(v, req).0),
{
    let v2 = apply_list(v, req).0;
    assert forall|p: (Identity, Identity)| #[trigger] v2.listings.contains_key(p)
        implies listing_ok(p.0, p.1, v2.listings[p]) by {
        if p != seed_pair(req.lock_address) {
            assert(v.listings.contains_key(p));
        }
    }
    assert forall|p: (Identity, Identity)| #[trigger] v2.holdings.dom().contains(p) by {
        assert(v.holdings.dom().contains(p));
    }
}

/// Buy preserves well-formedness: in particular a sold listing reverts to
/// unlisted with an empty vault.
pub proof fn lemma_buy_preserves_wf(v: LedgerView, req: Buy)
    requires
        view_wf(v),
        v.listings.contains_key(seed_pair(req.lock_address)),
    ensures
        view_wf(apply_buy(v, req).0),
{
    let v2 = apply_buy(v, req).0;
    assert forall|p: (Identity, Identity)| #[trigger] v2.listings.contains_key(p)
        implies listing_ok(p.0, p.1, v2.listings[p]) by {
        if p != seed_pair(req.lock_address) {
            assert(v.listings.contains_key(p));
        }
    }
    assert forall|w: Identity| #[trigger] v2.balances.dom().contains(w) by {
        assert(v.balances.dom().contains(w));
    }
    assert forall|p: (Identity, Identity)| #[trigger] v2.holdings.dom().contains(p) by {
        assert(v.holdings.dom().contains(p));
    }
}

/// Frame: Initialize writes at most the listing for its own pair. Every
/// other listing, every balance and every holding is untouched, which is the
/// complete write set the host needs to serialize conflicting operations.
pub proof fn lemma_initialize_frame(v: LedgerView, req: Initialize)
    ensures
        ({
            let v2 = apply_initialize(v, req).0;
            &&& forall|p: (Identity, Identity)| p != (req.owner, req.mint_address) ==> (
                #[trigger] v2.listings[p]) == v.listings[p] && (v2.listings.contains_key(p)
                <==> v.listings.contains_key(p))
            &&& v2.balances == v.balances
            &&& v2.holdings == v.holdings
        }),
{
}

/// Frame: List writes at most the listing at its lock address and the
/// owner's holding of the listed asset.
pub proof fn lemma_list_frame(v: LedgerView, req: ListNFT)
    ensures
        ({
            let v2 = apply_list(v, req).0;
            let st = v.listings[seed_pair(req.lock_address)];
            &&& forall|p: (Identity, Identity)| p != seed_pair(req.lock_address) ==> (
                #[trigger] v2.listings[p]) == v.listings[p] && (v2.listings.contains_key(p)
                <==> v.listings.contains_key(p))
            &&& v2.balances == v.balances
            &&& forall|q: (Identity, Identity)| q != (st.rec.owner, st.rec.mint_address)
                ==> (#[trigger] v2.holdings[q]) == v.holdings[q]
        }),
{
}

/// Frame: Buy writes at most the listing at its lock address, the buyer's
/// and seller's balances, and the buyer's holding of the traded asset.
pub proof fn lemma_buy_frame(v: LedgerView, req: Buy)
    ensures
        ({
            let v2 = apply_buy(v, req).0;
            let st = v.listings[seed_pair(req.lock_address)];
            &&& forall|p: (Identity, Identity)| p != seed_pair(req.lock_address) ==> (
                #[trigger] v2.listings[p]) == v.listings[p] && (v2.listings.contains_key(p)
                <==> v.listings.contains_key(p))
            &&& forall|w: Identity| w != req.buyer && w != req.seller ==> (
                #[trigger] v2.balances[w]) == v.balances[w]
            &&& forall|q: (Identity, Identity)| q != (req.buyer, st.rec.mint_address)
                ==> (#[trigger] v2.holdings[q]) == v.holdings[q]
        }),
{
}

/// Round trip: on a well-formed ledger with no listing yet for
/// (owner, asset), where the owner holds the unit, the buyer is a different
/// identity who can afford the price, and the counter-balances cannot
/// overflow, the chain Initialize → List(price) → Buy succeeds throughout
/// and ends with the vault empty, the buyer holding one more unit of the
/// asset, exactly `price` moved from the buyer's balance to the seller's —
/// and a second Buy against the now-empty vault fails with `NotListed`
/// instead of transferring anything twice.
pub proof fn lemma_round_trip(
    v0: LedgerView,
    owner: Identity,
    asset: Identity,
    buyer: Identity,
    price: u64,
)
    requires
        view_wf(v0),
        !v0.listings.contains_key((owner, asset)),
        price > 0,
        buyer != owner,
        v0.holdings[(owner, asset)] >= 1,
        v0.balances[buyer] >= price,
        v0.balances[owner] + price <= u64::MAX,
        v0.holdings[(buyer, asset)] + 1 <= u64::MAX,
    ensures
        ({
            let lock_addr = spec_derive(Tag::Lock, owner, asset).0;
            let vault_addr = spec_derive(Tag::Vault, owner, asset).0;
            let init = Initialize { signer: owner, owner: owner, mint_address: asset };
            let listing = ListNFT {
                signer: owner,
                lock_address: lock_addr,
                vault_address: vault_addr,
                price: price,
            };
            let purchase = Buy {
                signer: buyer,
                buyer: buyer,
                seller: owner,
                lock_address: lock_addr,
                vault_address: vault_addr,
                lock_bump: spec_derive(Tag::Lock, owner, asset).1,
            };
            let s1 = apply_initialize(v0, init);
            let s2 = apply_list(s1.0, listing);
            let s3 = apply_buy(s2.0, purchase);
            let s4 = apply_buy(s3.0, purchase);
            &&& s1.1 == Ok::<(), ErrorCode>(())
            &&& s2.1 == Ok::<(), ErrorCode>(())
            &&& s3.1 == Ok::<(), ErrorCode>(())
            &&& s3.0.listings[(owner, asset)].vault.amount == 0
            &&& s3.0.holdings[(buyer, asset)] == v0.holdings[(buyer, asset)] + 1
            &&& s3.0.balances[owner] == v0.balances[owner] + price
            &&& s3.0.balances[buyer] == v0.balances[buyer] - price
            &&& s4 == (s3.0, Err::<(), ErrorCode>(ErrorCode::NotListed))
        }),
{
}

/// Self-trade: Initialize → List(price) → Buy with the buyer equal to the
/// seller succeeds, moves the asset back to the owner, and leaves every
/// payment balance exactly as it was: no self-payment happens. This is how
/// an owner reclaims a listed asset without a separate cancel operation.
pub proof fn lemma_self_trade(v0: LedgerView, owner: Identity, asset: Identity, price: u64)
    requires
        view_wf(v0),
        !v0.listings.contains_key((owner, asset)),
        price > 0,
        v0.holdings[(owner, asset)] >= 1,
    ensures
        ({
            let lock_addr = spec_derive(Tag::Lock, owner, asset).0;
            let vault_addr = spec_derive(Tag::Vault, owner, asset).0;
            let init = Initialize { signer: owner, owner: owner, mint_address: asset };
            let listing = ListNFT {
                signer: owner,
                lock_address: lock_addr,
                vault_address: vault_addr,
                price: price,
            };
            let reclaim = Buy {
                signer: owner,
                buyer: owner,
                seller: owner,
                lock_address: lock_addr,
                vault_address: vault_addr,
                lock_bump: spec_derive(Tag::Lock, owner, asset).1,
            };
            let s1 = apply_initialize(v0, init);
            let s2 = apply_list(s1.0, listing);
            let s3 = apply_buy(s2.0, reclaim);
            &&& s1.1 == Ok::<(), ErrorCode>(())
            &&& s2.1 == Ok::<(), ErrorCode>(())
            &&& s3.1 == Ok::<(), ErrorCode>(())
            &&& s3.0.listings[(owner, asset)].vault.amount == 0
            &&& s3.0.holdings[(owner, asset)] == v0.holdings[(owner, asset)]
            &&& s3.0.balances == v0.balances
        }),
{
}

} // verus!
