use musechain_escrow::errors::ErrorCode;
use musechain_escrow::ids::{Address, Identity, Tag};
use musechain_escrow::ledger::Ledger;
use musechain_escrow::records::{Buy, Initialize, ListNFT};

fn id(key: u64) -> Identity {
    Identity { key }
}

fn lock_addr(owner: Identity, asset: Identity) -> Address {
    musechain_escrow::ids::derive(Tag::Lock, owner, asset).unwrap().0
}

fn vault_addr(owner: Identity, asset: Identity) -> Address {
    musechain_escrow::ids::derive(Tag::Vault, owner, asset).unwrap().0
}

fn lock_bump(owner: Identity, asset: Identity) -> u8 {
    musechain_escrow::ids::derive(Tag::Lock, owner, asset).unwrap().1
}

/// A ledger with a listing initialized for (owner, asset), the owner holding
/// one unit of the asset, and the given balances.
fn initialized(owner: Identity, asset: Identity, buyer: Identity, buyer_funds: u64) -> Ledger {
    let mut ledger = Ledger::new();
    ledger.set_holding(owner, asset, 1);
    ledger.set_balance(buyer, buyer_funds);
    let r = ledger.initialize(&Initialize {
        signer: owner,
        owner,
        mint_address: asset,
    });
    assert_eq!(r, Ok(()));
    ledger
}

fn list_req(owner: Identity, asset: Identity, price: u64) -> ListNFT {
    ListNFT {
        signer: owner,
        lock_address: lock_addr(owner, asset),
        vault_address: vault_addr(owner, asset),
        price,
    }
}

fn buy_req(owner: Identity, asset: Identity, buyer: Identity) -> Buy {
    Buy {
        signer: buyer,
        buyer,
        seller: owner,
        lock_address: lock_addr(owner, asset),
        vault_address: vault_addr(owner, asset),
        lock_bump: lock_bump(owner, asset),
    }
}

#[test]
fn initialize_creates_bound_records() {
    let owner = id(1);
    let asset = id(2);
    let ledger = initialized(owner, asset, id(3), 0);
    let rec = ledger.lock_account_of(owner, asset).unwrap();
    assert_eq!(rec.owner, owner);
    assert_eq!(rec.mint_address, asset);
    assert_eq!(rec.price, 0);
    assert_eq!(rec.vault_address, vault_addr(owner, asset));
    assert_eq!(rec.vault_bump, musechain_escrow::ids::derive(Tag::Vault, owner, asset).unwrap().1);
    let vault = ledger.vault_of(owner, asset).unwrap();
    assert_eq!(vault.authority, lock_addr(owner, asset));
    assert_eq!(vault.mint, asset);
    assert_eq!(vault.amount, 0);
}

#[test]
fn initialize_requires_owner_signature() {
    let owner = id(1);
    let asset = id(2);
    let mallory = id(9);
    let mut ledger = Ledger::new();
    let r = ledger.initialize(&Initialize {
        signer: mallory,
        owner,
        mint_address: asset,
    });
    assert_eq!(r, Err(ErrorCode::Unauthorized));
    assert!(ledger.lock_account_of(owner, asset).is_none());
}

#[test]
fn second_initialize_fails_already_initialized() {
    let owner = id(1);
    let asset = id(2);
    let mut ledger = initialized(owner, asset, id(3), 0);
    let before = ledger.lock_account_of(owner, asset).unwrap();
    let r = ledger.initialize(&Initialize {
        signer: owner,
        owner,
        mint_address: asset,
    });
    assert_eq!(r, Err(ErrorCode::AlreadyInitialized));
    assert_eq!(ledger.lock_account_of(owner, asset).unwrap(), before);
}

#[test]
fn distinct_pairs_get_distinct_records() {
    let owner = id(1);
    let other = id(4);
    let asset = id(2);
    let mut ledger = initialized(owner, asset, id(3), 0);
    let r = ledger.initialize(&Initialize {
        signer: other,
        owner: other,
        mint_address: asset,
    });
    assert_eq!(r, Ok(()));
    assert_eq!(ledger.lock_account_of(owner, asset).unwrap().owner, owner);
    assert_eq!(ledger.lock_account_of(other, asset).unwrap().owner, other);
}

#[test]
fn list_requires_owner_as_signer() {
    let owner = id(1);
    let asset = id(2);
    let mallory = id(9);
    let mut ledger = initialized(owner, asset, id(3), 0);
    let mut req = list_req(owner, asset, 500);
    req.signer = mallory;
    assert_eq!(ledger.list_nft(&req), Err(ErrorCode::Unauthorized));
    assert_eq!(ledger.lock_account_of(owner, asset).unwrap().price, 0);
    assert_eq!(ledger.holding_of(owner, asset), 1);
}

#[test]
fn list_rejects_wrong_vault_handle() {
    let owner = id(1);
    let asset = id(2);
    let mut ledger = initialized(owner, asset, id(3), 0);
    let mut req = list_req(owner, asset, 500);
    req.vault_address = vault_addr(owner, id(77));
    assert_eq!(ledger.list_nft(&req), Err(ErrorCode::VaultMismatch));
    assert_eq!(ledger.vault_of(owner, asset).unwrap().amount, 0);
}

#[test]
fn list_rejects_zero_price() {
    let owner = id(1);
    let asset = id(2);
    let mut ledger = initialized(owner, asset, id(3), 0);
    let req = list_req(owner, asset, 0);
    assert_eq!(ledger.list_nft(&req), Err(ErrorCode::InvalidPrice));
}

#[test]
fn list_without_the_asset_fails() {
    let owner = id(1);
    let asset = id(2);
    let mut ledger = initialized(owner, asset, id(3), 0);
    ledger.set_holding(owner, asset, 0);
    let req = list_req(owner, asset, 500);
    assert_eq!(ledger.list_nft(&req), Err(ErrorCode::InsufficientFunds));
    assert_eq!(ledger.vault_of(owner, asset).unwrap().amount, 0);
    assert_eq!(ledger.lock_account_of(owner, asset).unwrap().price, 0);
}

#[test]
fn list_escrows_the_unit_and_records_price() {
    let owner = id(1);
    let asset = id(2);
    let mut ledger = initialized(owner, asset, id(3), 0);
    let r = ledger.list_nft(&list_req(owner, asset, 500));
    assert_eq!(r, Ok(()));
    assert_eq!(ledger.holding_of(owner, asset), 0);
    assert_eq!(ledger.vault_of(owner, asset).unwrap().amount, 1);
    assert_eq!(ledger.lock_account_of(owner, asset).unwrap().price, 500);
}

#[test]
fn relist_updates_price_without_second_escrow() {
    let owner = id(1);
    let asset = id(2);
    let mut ledger = initialized(owner, asset, id(3), 0);
    assert_eq!(ledger.list_nft(&list_req(owner, asset, 500)), Ok(()));
    assert_eq!(ledger.list_nft(&list_req(owner, asset, 900)), Ok(()));
    assert_eq!(ledger.lock_account_of(owner, asset).unwrap().price, 900);
    assert_eq!(ledger.vault_of(owner, asset).unwrap().amount, 1);
    assert_eq!(ledger.holding_of(owner, asset), 0);
}

#[test]
fn round_trip_pays_seller_and_releases_custody() {
    let owner = id(1);
    let asset = id(2);
    let buyer = id(3);
    let mut ledger = initialized(owner, asset, buyer, 800);
    ledger.set_balance(owner, 100);
    assert_eq!(ledger.list_nft(&list_req(owner, asset, 500)), Ok(()));
    let r = ledger.buy(&buy_req(owner, asset, buyer));
    assert_eq!(r, Ok(()));
    assert_eq!(ledger.vault_of(owner, asset).unwrap().amount, 0);
    assert_eq!(ledger.holding_of(buyer, asset), 1);
    assert_eq!(ledger.holding_of(owner, asset), 0);
    assert_eq!(ledger.balance_of(owner), 600);
    assert_eq!(ledger.balance_of(buyer), 300);
    assert_eq!(ledger.lock_account_of(owner, asset).unwrap().price, 0);
}

#[test]
fn second_buy_fails_not_listed_and_moves_nothing() {
    let owner = id(1);
    let asset = id(2);
    let buyer = id(3);
    let mut ledger = initialized(owner, asset, buyer, 2000);
    assert_eq!(ledger.list_nft(&list_req(owner, asset, 500)), Ok(()));
    assert_eq!(ledger.buy(&buy_req(owner, asset, buyer)), Ok(()));
    let r = ledger.buy(&buy_req(owner, asset, buyer));
    assert_eq!(r, Err(ErrorCode::NotListed));
    assert_eq!(ledger.balance_of(buyer), 1500);
    assert_eq!(ledger.balance_of(owner), 500);
    assert_eq!(ledger.holding_of(buyer, asset), 1);
}

#[test]
fn self_trade_reclaims_asset_without_payment() {
    let owner = id(1);
    let asset = id(2);
    let mut ledger = initialized(owner, asset, owner, 0);
    ledger.set_balance(owner, 250);
    assert_eq!(ledger.list_nft(&list_req(owner, asset, 500)), Ok(()));
    let r = ledger.buy(&buy_req(owner, asset, owner));
    assert_eq!(r, Ok(()));
    assert_eq!(ledger.holding_of(owner, asset), 1);
    assert_eq!(ledger.balance_of(owner), 250);
    assert_eq!(ledger.vault_of(owner, asset).unwrap().amount, 0);
}

#[test]
fn buy_with_wrong_seller_fails_invalid_seller() {
    let owner = id(1);
    let asset = id(2);
    let buyer = id(3);
    let impostor = id(9);
    let mut ledger = initialized(owner, asset, buyer, 800);
    assert_eq!(ledger.list_nft(&list_req(owner, asset, 500)), Ok(()));
    let mut req = buy_req(owner, asset, buyer);
    req.seller = impostor;
    assert_eq!(ledger.buy(&req), Err(ErrorCode::InvalidSeller));
    assert_eq!(ledger.balance_of(buyer), 800);
    assert_eq!(ledger.vault_of(owner, asset).unwrap().amount, 1);
}

#[test]
fn buy_requires_buyer_as_signer() {
    let owner = id(1);
    let asset = id(2);
    let buyer = id(3);
    let mut ledger = initialized(owner, asset, buyer, 800);
    assert_eq!(ledger.list_nft(&list_req(owner, asset, 500)), Ok(()));
    let mut req = buy_req(owner, asset, buyer);
    req.signer = id(9);
    assert_eq!(ledger.buy(&req), Err(ErrorCode::Unauthorized));
    assert_eq!(ledger.balance_of(buyer), 800);
}

#[test]
fn buy_rejects_wrong_vault_handle() {
    let owner = id(1);
    let asset = id(2);
    let buyer = id(3);
    let mut ledger = initialized(owner, asset, buyer, 800);
    assert_eq!(ledger.list_nft(&list_req(owner, asset, 500)), Ok(()));
    let mut req = buy_req(owner, asset, buyer);
    req.vault_address = vault_addr(owner, id(77));
    assert_eq!(ledger.buy(&req), Err(ErrorCode::VaultMismatch));
    assert_eq!(ledger.vault_of(owner, asset).unwrap().amount, 1);
}

#[test]
fn buy_before_list_fails_not_listed() {
    let owner = id(1);
    let asset = id(2);
    let buyer = id(3);
    let mut ledger = initialized(owner, asset, buyer, 800);
    let r = ledger.buy(&buy_req(owner, asset, buyer));
    assert_eq!(r, Err(ErrorCode::NotListed));
    assert_eq!(ledger.balance_of(buyer), 800);
    assert_eq!(ledger.holding_of(owner, asset), 1);
    assert_eq!(ledger.holding_of(buyer, asset), 0);
}

#[test]
fn buy_with_wrong_bump_fails_derivation_mismatch() {
    let owner = id(1);
    let asset = id(2);
    let buyer = id(3);
    let mut ledger = initialized(owner, asset, buyer, 800);
    assert_eq!(ledger.list_nft(&list_req(owner, asset, 500)), Ok(()));
    let mut req = buy_req(owner, asset, buyer);
    req.lock_bump = req.lock_bump.wrapping_add(1);
    assert_eq!(ledger.buy(&req), Err(ErrorCode::DerivationMismatch));
    assert_eq!(ledger.vault_of(owner, asset).unwrap().amount, 1);
    assert_eq!(ledger.balance_of(buyer), 800);
}

#[test]
fn buy_without_funds_fails_insufficient_funds() {
    let owner = id(1);
    let asset = id(2);
    let buyer = id(3);
    let mut ledger = initialized(owner, asset, buyer, 499);
    assert_eq!(ledger.list_nft(&list_req(owner, asset, 500)), Ok(()));
    let r = ledger.buy(&buy_req(owner, asset, buyer));
    assert_eq!(r, Err(ErrorCode::InsufficientFunds));
    assert_eq!(ledger.balance_of(buyer), 499);
    assert_eq!(ledger.vault_of(owner, asset).unwrap().amount, 1);
    assert_eq!(ledger.holding_of(buyer, asset), 0);
}

#[test]
fn buy_rejects_seller_balance_overflow() {
    let owner = id(1);
    let asset = id(2);
    let buyer = id(3);
    let mut ledger = initialized(owner, asset, buyer, 1000);
    ledger.set_balance(owner, u64::MAX - 100);
    assert_eq!(ledger.list_nft(&list_req(owner, asset, 500)), Ok(()));
    let r = ledger.buy(&buy_req(owner, asset, buyer));
    assert_eq!(r, Err(ErrorCode::InsufficientFunds));
    assert_eq!(ledger.balance_of(buyer), 1000);
    assert_eq!(ledger.balance_of(owner), u64::MAX - 100);
    assert_eq!(ledger.vault_of(owner, asset).unwrap().amount, 1);
}

#[test]
fn balances_and_holdings_default_to_zero() {
    let ledger = Ledger::new();
    assert_eq!(ledger.balance_of(id(42)), 0);
    assert_eq!(ledger.holding_of(id(42), id(7)), 0);
    assert!(ledger.lock_account_of(id(42), id(7)).is_none());
    assert!(ledger.vault_of(id(42), id(7)).is_none());
}

#[test]
fn buy_rejects_buyer_holding_overflow() {
    let owner = id(1);
    let asset = id(2);
    let buyer = id(3);
    let mut ledger = initialized(owner, asset, buyer, 800);
    ledger.set_holding(buyer, asset, u64::MAX);
    assert_eq!(ledger.list_nft(&list_req(owner, asset, 500)), Ok(()));
    let r = ledger.buy(&buy_req(owner, asset, buyer));
    assert_eq!(r, Err(ErrorCode::InsufficientFunds));
    assert_eq!(ledger.balance_of(buyer), 800);
    assert_eq!(ledger.holding_of(buyer, asset), u64::MAX);
    assert_eq!(ledger.vault_of(owner, asset).unwrap().amount, 1);
}

#[test]
fn one_owner_can_list_two_assets() {
    let owner = id(1);
    let first = id(2);
    let second = id(6);
    let buyer = id(3);
    let mut ledger = initialized(owner, first, buyer, 800);
    ledger.set_holding(owner, second, 1);
    let r = ledger.initialize(&Initialize {
        signer: owner,
        owner,
        mint_address: second,
    });
    assert_eq!(r, Ok(()));
    assert_eq!(ledger.list_nft(&list_req(owner, first, 100)), Ok(()));
    assert_eq!(ledger.list_nft(&list_req(owner, second, 200)), Ok(()));
    assert_eq!(ledger.buy(&buy_req(owner, first, buyer)), Ok(()));
    assert_eq!(ledger.balance_of(owner), 100);
    assert_eq!(ledger.balance_of(buyer), 700);
    assert_eq!(ledger.holding_of(buyer, first), 1);
    assert_eq!(ledger.holding_of(buyer, second), 0);
    assert_eq!(ledger.vault_of(owner, second).unwrap().amount, 1);
    assert_eq!(ledger.lock_account_of(owner, second).unwrap().price, 200);
}
