//! The escrow state machine over an explicit ledger model.
//!
//! The ledger is the complete set of records the three operations read and
//! mutate: the listings (each one lock record bound to one vault), every
//! identity's payment balance, and every identity's holding of each asset.
//! Each operation is one run-to-completion function; an error leaves the
//! ledger untouched, which is the host's all-or-nothing transaction
//! semantics made explicit.
//!
//! Custody policy: the asset leg is pre-deposited — List escrows the one
//! unit into the vault, and Buy pays the seller directly while the vault
//! releases the unit to the buyer. A successful Buy also resets the price to
//! zero, so a sold listing reads as unlisted and a second Buy fails with
//! `NotListed` instead of observing stale state.

use vstd::prelude::*;
use crate::errors::ErrorCode;
use crate::ids::{Identity, Tag, spec_derive, sign_as};
use crate::records::{Buy, Initialize, ListNFT, ListingState, LockAccount, Vault};
use crate::store::{
    AssocVec, spec_pair_key, pair_key, spec_solo_key, solo_key, lemma_pair_key_injective,
};

verus! {

/// The mathematical content of a ledger: the listings keyed by the
/// (owner, asset) pair that seeds both of their derived addresses, and the
/// total maps of payment balances and asset holdings (absent accounts hold
/// zero).
#[verifier::ext_equal]
pub struct LedgerView {
    pub listings: Map<(Identity, Identity), ListingState>,
    pub balances: Map<Identity, u64>,
    pub holdings: Map<(Identity, Identity), u64>,
}

/// What every listing on a well-formed ledger satisfies: the record names
/// the pair that derives its address, the vault binding is the derivation
/// the record stores, the vault answers only to the lock record's derived
/// authority, and the vault holds exactly one unit while listed and nothing
/// while unlisted.
pub open spec fn listing_ok(owner: Identity, asset: Identity, st: ListingState) -> bool {
    &&& st.rec.owner == owner
    &&& st.rec.mint_address == asset
    &&& st.rec.vault_address == spec_derive(Tag::Vault, owner, asset).0
    &&& st.rec.vault_bump == spec_derive(Tag::Vault, owner, asset).1
    &&& st.vault.authority == spec_derive(Tag::Lock, owner, asset).0
    &&& st.vault.mint == asset
    &&& st.vault.amount == (if st.rec.price == 0 { 0u64 } else { 1u64 })
}

/// Well-formedness of a ledger view: every listing is internally bound as
/// `listing_ok` says, and the balance and holding maps are total.
pub open spec fn view_wf(v: LedgerView) -> bool {
    &&& forall|p: (Identity, Identity)| #[trigger] v.listings.contains_key(p)
            ==> listing_ok(p.0, p.1, v.listings[p])
    &&& forall|w: Identity| #[trigger] v.balances.dom().contains(w)
    &&& forall|p: (Identity, Identity)| #[trigger] v.holdings.dom().contains(p)
}

/// The (owner, asset) pair that seeds a derived address: the key under
/// which the ledger files the account.
pub open spec fn seed_pair(a: crate::ids::Address) -> (Identity, Identity) {
    (a.owner, a.asset)
}

/// The Initialize transition. Refuses a request the owner did not sign, and
/// refuses to create a second lock record for a pair that already has one;
/// otherwise creates the lock record and its empty vault at their derived
/// addresses, bound to each other, with the price unset.
pub open spec fn apply_initialize(v: LedgerView, req: Initialize) -> (LedgerView, Result<
    (),
    ErrorCode,
>) {
    if req.signer != req.owner {
        (v, Err(ErrorCode::Unauthorized))
    } else if v.listings.contains_key((req.owner, req.mint_address)) {
        (v, Err(ErrorCode::AlreadyInitialized))
    } else {
        let st = ListingState {
            rec: LockAccount {
                owner: req.owner,
                mint_address: req.mint_address,
                price: 0u64,
                vault_address: spec_derive(Tag::Vault, req.owner, req.mint_address).0,
                vault_bump: spec_derive(Tag::Vault, req.owner, req.mint_address).1,
            },
            vault: Vault {
                authority: spec_derive(Tag::Lock, req.owner, req.mint_address).0,
                mint: req.mint_address,
                amount: 0u64,
            },
        };
        (
            LedgerView {
                listings: v.listings.insert((req.owner, req.mint_address), st),
                ..v
            },
            Ok(()),
        )
    }
}

/// The List transition, on a ledger whose listing at the request's lock
/// address exists (the host validates the account before the body runs).
/// Only the stored owner may list; the vault handle must match the stored
/// binding; the price must be positive. Listing an unlisted record escrows
/// the one unit out of the owner's holding into the vault; listing an
/// already-listed record only updates the price, since the unit is already
/// in custody.
pub open spec fn apply_list(v: LedgerView, req: ListNFT) -> (LedgerView, Result<(), ErrorCode>) {
    let key = seed_pair(req.lock_address);
    let st = v.listings[key];
    if req.signer != st.rec.owner {
        (v, Err(ErrorCode::Unauthorized))
    } else if req.vault_address != st.rec.vault_address {
        (v, Err(ErrorCode::VaultMismatch))
    } else if req.price == 0 {
        (v, Err(ErrorCode::InvalidPrice))
    } else if st.rec.price != 0 {
        let st2 = ListingState {
            rec: LockAccount { price: req.price, ..st.rec },
            vault: st.vault,
        };
        (LedgerView { listings: v.listings.insert(key, st2), ..v }, Ok(()))
    } else if v.holdings[(st.rec.owner, st.rec.mint_address)] < 1 {
        (v, Err(ErrorCode::InsufficientFunds))
    } else {
        let hkey = (st.rec.owner, st.rec.mint_address);
        let st2 = ListingState {
            rec: LockAccount { price: req.price, ..st.rec },
            vault: Vault { amount: 1u64, ..st.vault },
        };
        (
            LedgerView {
                listings: v.listings.insert(key, st2),
                holdings: v.holdings.insert(hkey, (v.holdings[hkey] - 1) as u64),
                ..v
            },
            Ok(()),
        )
    }
}

/// The Buy transition, on a ledger whose listing at the request's lock
/// address exists. The claimed seller must be the stored owner, the buyer
/// must have signed, the vault handle must match, the record must be listed,
/// and the presented bump must reconstruct the vault's signing authority.
/// Unless the buyer is the seller, exactly the listed price moves from buyer
/// to seller; either way the vault releases the one unit to the buyer and
/// the price resets to zero. The payment legs are checked before anything
/// moves, so a failed payment has no effect.
pub open spec fn apply_buy(v: LedgerView, req: Buy) -> (LedgerView, Result<(), ErrorCode>) {
    let key = seed_pair(req.lock_address);
    let st = v.listings[key];
    let owner = st.rec.owner;
    let asset = st.rec.mint_address;
    let price = st.rec.price;
    if req.seller != owner {
        (v, Err(ErrorCode::InvalidSeller))
    } else if req.signer != req.buyer {
        (v, Err(ErrorCode::Unauthorized))
    } else if req.vault_address != st.rec.vault_address {
        (v, Err(ErrorCode::VaultMismatch))
    } else if price == 0 {
        (v, Err(ErrorCode::NotListed))
    } else if req.lock_bump != spec_derive(Tag::Lock, owner, asset).1 {
        (v, Err(ErrorCode::DerivationMismatch))
    } else if req.buyer != req.seller && v.balances[req.buyer] < price {
        (v, Err(ErrorCode::InsufficientFunds))
    } else if req.buyer != req.seller && v.balances[req.seller] + price > u64::MAX {
        (v, Err(ErrorCode::InsufficientFunds))
    } else if v.holdings[(req.buyer, asset)] + 1 > u64::MAX {
        (v, Err(ErrorCode::InsufficientFunds))
    } else {
        let balances2 = if req.buyer != req.seller {
            v.balances.insert(req.buyer, (v.balances[req.buyer] - price) as u64).insert(
                req.seller,
                (v.balances[req.seller] + price) as u64,
            )
        } else {
            v.balances
        };
        let st2 = ListingState {
            rec: LockAccount { price: 0u64, ..st.rec },
            vault: Vault { amount: 0u64, ..st.vault },
        };
        (
            LedgerView {
                listings: v.listings.insert(key, st2),
                balances: balances2,
                holdings: v.holdings.insert(
                    (req.buyer, asset),
                    (v.holdings[(req.buyer, asset)] + 1) as u64,
                ),
            },
            Ok(()),
        )
    }
}

/// The view of the listings store: the stored map, re-keyed from packed
/// keys to the (owner, asset) pairs they pack.
pub open spec fn listings_view(m: Map<u128, ListingState>) -> Map<
    (Identity, Identity),
    ListingState,
> {
    Map::new(
        |p: (Identity, Identity)| m.contains_key(spec_pair_key(p.0, p.1)),
        |p: (Identity, Identity)| m[spec_pair_key(p.0, p.1)],
    )
}

/// The view of the balances store: total, with absent accounts at zero.
pub open spec fn balances_view(m: Map<u128, u64>) -> Map<Identity, u64> {
    Map::new(
        |w: Identity| true,
        |w: Identity| if m.contains_key(spec_solo_key(w)) {
            m[spec_solo_key(w)]
        } else {
            0u64
        },
    )
}

/// The view of the holdings store: total, with absent accounts at zero.
pub open spec fn holdings_view(m: Map<u128, u64>) -> Map<(Identity, Identity), u64> {
    Map::new(
        |p: (Identity, Identity)| true,
        |p: (Identity, Identity)| if m.contains_key(spec_pair_key(p.0, p.1)) {
            m[spec_pair_key(p.0, p.1)]
        } else {
            0u64
        },
    )
}

proof fn lemma_listings_view_insert(m: Map<u128, ListingState>, o: Identity, a: Identity, st: ListingState)
    ensures
        listings_view(m.insert(spec_pair_key(o, a), st)) == listings_view(m).insert((o, a), st),
{
    assert forall|p: (Identity, Identity)|
        spec_pair_key(p.0, p.1) == spec_pair_key(o, a) implies p == (o, a) by {
        lemma_pair_key_injective(p.0, p.1, o, a);
    }
    assert(listings_view(m.insert(spec_pair_key(o, a), st))
        =~= listings_view(m).insert((o, a), st));
}

proof fn lemma_balances_view_insert(m: Map<u128, u64>, w: Identity, x: u64)
    ensures
        balances_view(m.insert(spec_solo_key(w), x)) == balances_view(m).insert(w, x),
{
    assert(balances_view(m.insert(spec_solo_key(w), x)) =~= balances_view(m).insert(w, x));
}

proof fn lemma_holdings_view_insert(m: Map<u128, u64>, o: Identity, a: Identity, x: u64)
    ensures
        holdings_view(m.insert(spec_pair_key(o, a), x)) == holdings_view(m).insert((o, a), x),
{
    assert forall|p: (Identity, Identity)|
        spec_pair_key(p.0, p.1) == spec_pair_key(o, a) implies p == (o, a) by {
        lemma_pair_key_injective(p.0, p.1, o, a);
    }
    assert(holdings_view(m.insert(spec_pair_key(o, a), x))
        =~= holdings_view(m).insert((o, a), x));
}

/// The complete set of records the escrow operations read and mutate,
/// stored in derived-address-keyed arenas.
pub struct Ledger {
    listings: AssocVec<ListingState>,
    balances: AssocVec<u64>,
    holdings: AssocVec<u64>,
}

impl View for Ledger {
    type V = LedgerView;

    closed spec fn view(&self) -> LedgerView {
        LedgerView {
            listings: listings_view(self.listings.m()),
            balances: balances_view(self.balances.m()),
            holdings: holdings_view(self.holdings.m()),
        }
    }
}

impl Ledger {
    /// Well-formed: each store has distinct keys and the view satisfies the
    /// listing invariants.
    pub closed spec fn wf(self) -> bool {
        &&& self.listings.wf()
        &&& self.balances.wf()
        &&& self.holdings.wf()
        &&& view_wf(self@)
    }

    /// An empty ledger: no listings, all balances and holdings zero.
    pub fn new() -> (r: Ledger)
        ensures
            r.wf(),
            r@.listings == Map::<(Identity, Identity), ListingState>::empty(),
            r@.balances == Map::new(|w: Identity| true, |w: Identity| 0u64),
            r@.holdings == Map::new(|p: (Identity, Identity)| true, |p: (Identity, Identity)| 0u64),
    {
        let r = Ledger {
            listings: AssocVec::new(),
            balances: AssocVec::new(),
            holdings: AssocVec::new(),
        };
        proof {
            assert(r@.listings =~= Map::<(Identity, Identity), ListingState>::empty());
            assert(r@.balances =~= Map::new(|w: Identity| true, |w: Identity| 0u64));
            assert(r@.holdings =~= Map::new(
                |p: (Identity, Identity)| true,
                |p: (Identity, Identity)| 0u64,
            ));
        }
        r
    }

    /// Sets an identity's payment balance. This is the environment funding
    /// an account (an airdrop or prior income), not an escrow operation: it
    /// touches no listing and no holding.
    pub fn set_balance(&mut self, who: Identity, amount: u64)
        requires
            old(self).wf(),
        ensures
            final(self).wf(),
            final(self)@.balances == old(self)@.balances.insert(who, amount),
            final(self)@.listings == old(self)@.listings,
            final(self)@.holdings == old(self)@.holdings,
    {
        let k = solo_key(who);
        self.balances.insert(k, amount);
        proof {
            lemma_balances_view_insert(old(self).balances.m(), who, amount);
            assert forall|w: Identity| #[trigger] self@.balances.dom().contains(w) by {
                assert(old(self)@.balances.dom().contains(w));
            }
            assert forall|p: (Identity, Identity)| #[trigger] self@.listings.contains_key(p)
                implies listing_ok(p.0, p.1, self@.listings[p]) by {
                assert(old(self)@.listings.contains_key(p));
            }
        }
    }

    /// Sets an identity's holding of an asset. This is the environment
    /// minting or delivering units to a human-held account; the custody held
    /// by vaults lives in the listings, which this does not touch.
    pub fn set_holding(&mut self, holder: Identity, asset: Identity, amount: u64)
        requires
            old(self).wf(),
        ensures
            final(self).wf(),
            final(self)@.holdings == old(self)@.holdings.insert((holder, asset), amount),
            final(self)@.listings == old(self)@.listings,
            final(self)@.balances == old(self)@.balances,
    {
        let k = pair_key(holder, asset);
        self.holdings.insert(k, amount);
        proof {
            lemma_holdings_view_insert(old(self).holdings.m(), holder, asset, amount);
            assert forall|p: (Identity, Identity)| #[trigger] self@.holdings.dom().contains(p) by {
                assert(old(self)@.holdings.dom().contains(p));
            }
            assert forall|p: (Identity, Identity)| #[trigger] self@.listings.contains_key(p)
                implies listing_ok(p.0, p.1, self@.listings[p]) by {
                assert(old(self)@.listings.contains_key(p));
            }
        }
    }

    /// An identity's payment balance.
    pub fn balance_of(&self, who: Identity) -> (r: u64)
        requires
            self.wf(),
        ensures
            r == self@.balances[who],
    {
        let k = solo_key(who);
        match self.balances.get(k) {
            Some(x) => x,
            None => 0,
        }
    }

    /// An identity's holding of an asset.
    pub fn holding_of(&self, holder: Identity, asset: Identity) -> (r: u64)
        requires
            self.wf(),
        ensures
            r == self@.holdings[(holder, asset)],
    {
        let k = pair_key(holder, asset);
        match self.holdings.get(k) {
            Some(x) => x,
            None => 0,
        }
    }

    /// The lock record of the listing for (owner, asset), if one was
    /// initialized.
    pub fn lock_account_of(&self, owner: Identity, asset: Identity) -> (r: Option<LockAccount>)
        requires
            self.wf(),
        ensures
            self@.listings.contains_key((owner, asset)) ==> r == Some(
                self@.listings[(owner, asset)].rec,
            ),
            !self@.listings.contains_key((owner, asset)) ==> r is None,
    {
        let k = pair_key(owner, asset);
        match self.listings.get(k) {
            Some(st) => Some(st.rec),
            None => None,
        }
    }

    /// The vault of the listing for (owner, asset), if one was initialized.
    pub fn vault_of(&self, owner: Identity, asset: Identity) -> (r: Option<Vault>)
        requires
            self.wf(),
        ensures
            self@.listings.contains_key((owner, asset)) ==> r == Some(
                self@.listings[(owner, asset)].vault,
            ),
            !self@.listings.contains_key((owner, asset)) ==> r is None,
    {
        let k = pair_key(owner, asset);
        match self.listings.get(k) {
            Some(st) => Some(st.vault),
            None => None,
        }
    }

    /// Initialize: create the lock record and the vault for
    /// (owner, mint_address) at their derived addresses, bound to each
    /// other, with the price unset. Fails with `Unauthorized` when the owner
    /// did not sign, and with `AlreadyInitialized` when the pair already has
    /// a lock record; either failure leaves the ledger unchanged.
    pub fn initialize(&mut self, req: &Initialize) -> (r: Result<(), ErrorCode>)
        requires
            old(self).wf(),
        ensures
            final(self).wf(),
            final(self)@ == apply_initialize(old(self)@, *req).0,
            r == apply_initialize(old(self)@, *req).1,
    {
        if req.signer != req.owner {
            return Err(ErrorCode::Unauthorized);
        }
        let k = pair_key(req.owner, req.mint_address);
        match self.listings.get(k) {
            Some(_) => {
                return Err(ErrorCode::AlreadyInitialized);
            },
            None => {},
        }
        let lock = match crate::ids::derive(Tag::Lock, req.owner, req.mint_address) {
            Ok(d) => d,
            Err(e) => {
                return Err(e);
            },
        };
        let vault_d = match crate::ids::derive(Tag::Vault, req.owner, req.mint_address) {
            Ok(d) => d,
            Err(e) => {
                return Err(e);
            },
        };
        let st = ListingState {
            rec: LockAccount {
                owner: req.owner,
                mint_address: req.mint_address,
                price: 0,
                vault_address: vault_d.0,
                vault_bump: vault_d.1,
            },
            vault: Vault { authority: lock.0, mint: req.mint_address, amount: 0 },
        };
        self.listings.insert(k, st);
        proof {
            lemma_listings_view_insert(old(self).listings.m(), req.owner, req.mint_address, st);
            assert(self@.listings == old(self)@.listings.insert((req.owner, req.mint_address), st));
            assert(self@ =~= apply_initialize(old(self)@, *req).0);
            assert forall|p: (Identity, Identity)| #[trigger] self@.listings.contains_key(p)
                implies listing_ok(p.0, p.1, self@.listings[p]) by {
                if p != (req.owner, req.mint_address) {
                    assert(old(self)@.listings.contains_key(p));
                }
            }
        }
        Ok(())
    }

    /// List: escrow the asset and advertise the price. Only the stored owner
    /// may list; the vault handle must match the stored binding; the price
    /// must be positive. On a fresh listing the one unit moves from the
    /// owner's holding into the vault (`InsufficientFunds` when the owner
    /// holds none); on an already-listed record only the price changes.
    /// Every failure leaves the ledger unchanged.
    pub fn list_nft(&mut self, req: &ListNFT) -> (r: Result<(), ErrorCode>)
        requires
            old(self).wf(),
            req.lock_address.tag == Tag::Lock,
            old(self)@.listings.contains_key(seed_pair(req.lock_address)),
        ensures
            final(self).wf(),
            final(self)@ == apply_list(old(self)@, *req).0,
            r == apply_list(old(self)@, *req).1,
    {
        let k = pair_key(req.lock_address.owner, req.lock_address.asset);
        let st = match self.listings.get(k) {
            Some(st) => st,
            None => {
                return Err(ErrorCode::Unauthorized);
            },
        };
        if req.signer != st.rec.owner {
            return Err(ErrorCode::Unauthorized);
        }
        if req.vault_address != st.rec.vault_address {
            return Err(ErrorCode::VaultMismatch);
        }
        if req.price == 0 {
            return Err(ErrorCode::InvalidPrice);
        }
        if st.rec.price != 0 {
            let st2 = ListingState {
                rec: LockAccount { price: req.price, ..st.rec },
                vault: st.vault,
            };
            self.listings.insert(k, st2);
            proof {
                lemma_listings_view_insert(
                    old(self).listings.m(),
                    req.lock_address.owner,
                    req.lock_address.asset,
                    st2,
                );
                assert(self@ =~= apply_list(old(self)@, *req).0);
                assert forall|p: (Identity, Identity)| #[trigger] self@.listings.contains_key(p)
                    implies listing_ok(p.0, p.1, self@.listings[p]) by {
                    if p != seed_pair(req.lock_address) {
                        assert(old(self)@.listings.contains_key(p));
                    }
                }
            }
            return Ok(());
        }
        let hk = pair_key(st.rec.owner, st.rec.mint_address);
        let have = match self.holdings.get(hk) {
            Some(x) => x,
            None => 0,
        };
        if have < 1 {
            return Err(ErrorCode::InsufficientFunds);
        }
        self.holdings.insert(hk, have - 1);
        let st2 = ListingState {
            rec: LockAccount { price: req.price, ..st.rec },
            vault: Vault { amount: 1, ..st.vault },
        };
        self.listings.insert(k, st2);
        proof {
            lemma_holdings_view_insert(
                old(self).holdings.m(),
                st.rec.owner,
                st.rec.mint_address,
                (have - 1) as u64,
            );
            lemma_listings_view_insert(
                old(self).listings.m(),
                req.lock_address.owner,
                req.lock_address.asset,
                st2,
            );
            assert(self@ =~= apply_list(old(self)@, *req).0);
            assert forall|p: (Identity, Identity)| #[trigger] self@.listings.contains_key(p)
                implies listing_ok(p.0, p.1, self@.listings[p]) by {
                if p != seed_pair(req.lock_address) {
                    assert(old(self)@.listings.contains_key(p));
                }
            }
        }
        Ok(())
    }

    /// Buy: pay the seller and release custody to the buyer. The claimed
    /// seller must be the stored owner (`InvalidSeller`), the buyer must be
    /// the signer (`Unauthorized`), the vault handle must match
    /// (`VaultMismatch`), the record must be listed (`NotListed`), and the
    /// presented bump must reconstruct the vault's signing authority
    /// (`DerivationMismatch`). Unless the buyer is the seller, exactly the
    /// listed price moves from buyer to seller (`InsufficientFunds` when the
    /// buyer cannot pay or a balance would overflow); a self-trade skips the
    /// payment entirely, letting an owner reclaim a listed asset. Either way
    /// the vault releases its one unit to the buyer and the price resets to
    /// zero. Every failure leaves the ledger unchanged.
    pub fn buy(&mut self, req: &Buy) -> (r: Result<(), ErrorCode>)
        requires
            old(self).wf(),
            req.lock_address.tag == Tag::Lock,
            old(self)@.listings.contains_key(seed_pair(req.lock_address)),
        ensures
            final(self).wf(),
            final(self)@ == apply_buy(old(self)@, *req).0,
            r == apply_buy(old(self)@, *req).1,
    {
        let k = pair_key(req.lock_address.owner, req.lock_address.asset);
        let st = match self.listings.get(k) {
            Some(st) => st,
            None => {
                return Err(ErrorCode::Unauthorized);
            },
        };
        if req.seller != st.rec.owner {
            return Err(ErrorCode::InvalidSeller);
        }
        if req.signer != req.buyer {
            return Err(ErrorCode::Unauthorized);
        }
        if req.vault_address != st.rec.vault_address {
            return Err(ErrorCode::VaultMismatch);
        }
        if st.rec.price == 0 {
            return Err(ErrorCode::NotListed);
        }
        let auth = match sign_as(Tag::Lock, st.rec.owner, st.rec.mint_address, req.lock_bump) {
            Some(a) => a,
            None => {
                return Err(ErrorCode::DerivationMismatch);
            },
        };
        let price = st.rec.price;
        let buyer_balance = self.balance_of(req.buyer);
        let seller_balance = self.balance_of(req.seller);
        if req.buyer != req.seller {
            if buyer_balance < price {
                return Err(ErrorCode::InsufficientFunds);
            }
            if seller_balance > u64::MAX - price {
                return Err(ErrorCode::InsufficientFunds);
            }
        }
        let buyer_holding = self.holding_of(req.buyer, st.rec.mint_address);
        if buyer_holding > u64::MAX - 1 {
            return Err(ErrorCode::InsufficientFunds);
        }
        if req.buyer != req.seller {
            self.balances.insert(solo_key(req.buyer), buyer_balance - price);
            proof {
                lemma_balances_view_insert(
                    old(self).balances.m(),
                    req.buyer,
                    (buyer_balance - price) as u64,
                );
            }
            let ghost mid = self.balances.m();
            self.balances.insert(solo_key(req.seller), seller_balance + price);
            proof {
                lemma_balances_view_insert(mid, req.seller, (seller_balance + price) as u64);
            }
        }
        let mut vault2 = st.vault;
        let released = vault2.withdraw_all(&auth);
        assert(released == 1);
        self.holdings.insert(pair_key(req.buyer, st.rec.mint_address), buyer_holding + released);
        let st2 = ListingState {
            rec: LockAccount { price: 0, ..st.rec },
            vault: vault2,
        };
        self.listings.insert(k, st2);
        proof {
            lemma_holdings_view_insert(
                old(self).holdings.m(),
                req.buyer,
                st.rec.mint_address,
                (buyer_holding + released) as u64,
            );
            lemma_listings_view_insert(
                old(self).listings.m(),
                req.lock_address.owner,
                req.lock_address.asset,
                st2,
            );
            assert(self@ =~= apply_buy(old(self)@, *req).0);
            assert forall|p: (Identity, Identity)| #[trigger] self@.listings.contains_key(p)
                implies listing_ok(p.0, p.1, self@.listings[p]) by {
                if p != seed_pair(req.lock_address) {
                    assert(old(self)@.listings.contains_key(p));
                }
            }
        }
        Ok(())
    }
}

} // verus!

verus! {

/// A well-formed ledger's view is well-formed. This is the bridge from the
/// operations' `wf` postcondition to the view-level laws: after any chain of
/// operations the ledger's view satisfies `view_wf`, so the laws stated over
/// the transitions apply to it.
pub proof fn lemma_wf_implies_view_wf(l: Ledger)
    requires
        l.wf(),
    ensures
        view_wf(l@),
{
}

} // verus!
