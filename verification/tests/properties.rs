//! Concrete instances of the proved laws, run against the executable
//! ledger.

use nft_marketplace::addr::{bump, listing_bump, TAG_MARKETPLACE};
use nft_marketplace::ledger::{Ledger, MarketplaceEntry, TokenBalance};
use nft_marketplace::state::{CollectionLink, Listing, Marketplace, NftMetadata};
use nft_marketplace::MarketplaceError;

const ADMIN: u64 = 1;
const SELLER: u64 = 2;
const BUYER: u64 = 3;
const ASSET: u64 = 77;
const COLLECTION: u64 = 88;

fn meta() -> NftMetadata {
    NftMetadata { collection: Some(CollectionLink { key: COLLECTION, verified: true }) }
}

#[test]
fn uniqueness_second_initialize_always_fails() {
    let mut l = Ledger::new();
    assert_eq!(l.initialize(ADMIN, b"m".to_vec(), 1), Ok(()));
    for fee in [0u16, 1, 250, 10_000, u16::MAX] {
        assert_eq!(l.initialize(ADMIN, b"m".to_vec(), fee), Err(MarketplaceError::AlreadyExists));
    }
}

#[test]
fn exclusivity_at_most_one_listing_per_pair() {
    let mut l = Ledger::new();
    assert_eq!(l.initialize(ADMIN, b"m".to_vec(), 1), Ok(()));
    l.mint_to(SELLER, ASSET, 1);
    l.mint_to(BUYER, ASSET, 1);
    assert_eq!(l.listing(SELLER, b"m".to_vec(), ASSET, COLLECTION, meta(), 9), Ok(()));
    // Not even another holder of the same mint can occupy the pair.
    let r = l.listing(BUYER, b"m".to_vec(), ASSET, COLLECTION, meta(), 5);
    assert_eq!(r, Err(MarketplaceError::AlreadyExists));
    assert_eq!(l.listing_info(&b"m".to_vec(), ASSET).unwrap().maker, SELLER);
}

#[test]
fn custody_vault_holds_deposit_while_listed() {
    let mut l = Ledger::new();
    assert_eq!(l.initialize(ADMIN, b"m".to_vec(), 1), Ok(()));
    l.mint_to(SELLER, ASSET, 3);
    assert_eq!(l.listing(SELLER, b"m".to_vec(), ASSET, COLLECTION, meta(), 9), Ok(()));
    assert_eq!(l.vault_balance(&b"m".to_vec(), ASSET), 3);
    // Unrelated activity leaves the vault untouched.
    l.mint_to(SELLER, 500, 1);
    assert_eq!(l.listing(SELLER, b"m".to_vec(), 500, COLLECTION, meta(), 2), Ok(()));
    assert_eq!(l.delisting(&b"m".to_vec(), 500, SELLER), Ok(()));
    assert_eq!(l.vault_balance(&b"m".to_vec(), ASSET), 3);
    // Once the listing is gone, so is the vault.
    assert_eq!(l.delisting(&b"m".to_vec(), ASSET, SELLER), Ok(()));
    assert_eq!(l.vault_balance(&b"m".to_vec(), ASSET), 0);
}

#[test]
fn fee_split_sums_to_price() {
    let cases: [(u64, u16); 6] = [
        (1_000_000, 250),
        (999, 10_000),
        (1, 9_999),
        (0, 250),
        (u64::MAX, 1),
        (3, 3_333),
    ];
    for (price, fee_bps) in cases {
        let mut l = Ledger::new();
        assert_eq!(l.initialize(ADMIN, b"m".to_vec(), fee_bps), Ok(()));
        l.mint_to(SELLER, ASSET, 1);
        if price < u64::MAX {
            l.airdrop(BUYER, price);
        } else {
            l.airdrop(BUYER, u64::MAX);
        }
        assert_eq!(l.listing(SELLER, b"m".to_vec(), ASSET, COLLECTION, meta(), price), Ok(()));
        assert_eq!(l.purchase(&b"m".to_vec(), ASSET, BUYER), Ok(()));
        let fee = ((price as u128) * (fee_bps as u128) / 10_000) as u64;
        assert_eq!(l.treasury_balance(&b"m".to_vec()), fee);
        assert_eq!(l.wallet_balance(SELLER), price - fee);
        // Treasury and proceeds sum exactly to the price paid.
        assert_eq!(l.treasury_balance(&b"m".to_vec()) + l.wallet_balance(SELLER), price);
    }
}

#[test]
fn fee_exact_value() {
    let mut l = Ledger::new();
    assert_eq!(l.initialize(ADMIN, b"m".to_vec(), 250), Ok(()));
    l.mint_to(SELLER, ASSET, 1);
    l.airdrop(BUYER, 1_000_000);
    assert_eq!(l.listing(SELLER, b"m".to_vec(), ASSET, COLLECTION, meta(), 1_000_000), Ok(()));
    assert_eq!(l.purchase(&b"m".to_vec(), ASSET, BUYER), Ok(()));
    // 2.5% of 1_000_000, truncating.
    assert_eq!(l.treasury_balance(&b"m".to_vec()), 25_000);
    assert_eq!(l.wallet_balance(SELLER), 975_000);
}

#[test]
fn atomicity_failed_purchase_changes_nothing() {
    let mut l = Ledger::new();
    assert_eq!(l.initialize(ADMIN, b"m".to_vec(), 250), Ok(()));
    l.mint_to(SELLER, ASSET, 1);
    l.airdrop(BUYER, 99);
    assert_eq!(l.listing(SELLER, b"m".to_vec(), ASSET, COLLECTION, meta(), 100), Ok(()));
    let r = l.purchase(&b"m".to_vec(), ASSET, BUYER);
    assert_eq!(r, Err(MarketplaceError::InsufficientFunds));
    assert_eq!(l.wallet_balance(BUYER), 99);
    assert_eq!(l.wallet_balance(SELLER), 0);
    assert_eq!(l.treasury_balance(&b"m".to_vec()), 0);
    assert_eq!(l.balance_of(BUYER, ASSET), 0);
    assert_eq!(l.vault_balance(&b"m".to_vec(), ASSET), 1);
    assert!(l.listing_info(&b"m".to_vec(), ASSET).is_some());
}

#[test]
fn atomicity_failed_list_changes_nothing() {
    let mut l = Ledger::new();
    assert_eq!(l.initialize(ADMIN, b"m".to_vec(), 250), Ok(()));
    l.mint_to(SELLER, ASSET, 2);
    let bad = NftMetadata { collection: Some(CollectionLink { key: COLLECTION, verified: false }) };
    assert_eq!(
        l.listing(SELLER, b"m".to_vec(), ASSET, COLLECTION, bad, 100),
        Err(MarketplaceError::UnverifiedCollection)
    );
    assert_eq!(l.balance_of(SELLER, ASSET), 2);
    assert!(l.listing_info(&b"m".to_vec(), ASSET).is_none());
    assert_eq!(l.vault_balance(&b"m".to_vec(), ASSET), 0);
}

#[test]
fn round_trip_restores_seller() {
    let mut l = Ledger::new();
    assert_eq!(l.initialize(ADMIN, b"m".to_vec(), 250), Ok(()));
    l.mint_to(SELLER, ASSET, 7);
    l.airdrop(SELLER, 123);
    assert_eq!(l.listing(SELLER, b"m".to_vec(), ASSET, COLLECTION, meta(), 42), Ok(()));
    assert_eq!(l.balance_of(SELLER, ASSET), 0);
    assert_eq!(l.delisting(&b"m".to_vec(), ASSET, SELLER), Ok(()));
    // The original holding balance is back, nothing lingers.
    assert_eq!(l.balance_of(SELLER, ASSET), 7);
    assert_eq!(l.wallet_balance(SELLER), 123);
    assert!(l.listing_info(&b"m".to_vec(), ASSET).is_none());
    assert_eq!(l.vault_balance(&b"m".to_vec(), ASSET), 0);
}

#[test]
fn forged_marketplace_nonce_is_rejected() {
    // A record whose stored nonce does not match the derivation is a
    // forged or stale reference; `listing` refuses to act on it.
    let real_bump = bump(TAG_MARKETPLACE, &b"m".to_vec());
    let forged = Marketplace {
        admin: ADMIN,
        fee: 250,
        bump: real_bump.wrapping_add(1),
        treasury_bump: 0,
        rewards_bump: 0,
        name: b"m".to_vec(),
    };
    let mut l = Ledger {
        marketplaces: vec![MarketplaceEntry { marketplace: forged, treasury: 0 }],
        listings: Vec::new(),
        wallets: Vec::new(),
        tokens: vec![TokenBalance { owner: SELLER, mint: ASSET, amount: 1 }],
    };
    let r = l.listing(SELLER, b"m".to_vec(), ASSET, COLLECTION, meta(), 5);
    assert_eq!(r, Err(MarketplaceError::AddressMismatch));
}

#[test]
fn derivation_is_deterministic() {
    assert_eq!(bump(TAG_MARKETPLACE, &b"m".to_vec()), bump(TAG_MARKETPLACE, &b"m".to_vec()));
    assert_eq!(listing_bump(&b"m".to_vec(), ASSET), listing_bump(&b"m".to_vec(), ASSET));
}

#[test]
fn listing_record_carries_its_nonce() {
    let mut l = Ledger::new();
    assert_eq!(l.initialize(ADMIN, b"m".to_vec(), 250), Ok(()));
    l.mint_to(SELLER, ASSET, 1);
    assert_eq!(l.listing(SELLER, b"m".to_vec(), ASSET, COLLECTION, meta(), 5), Ok(()));
    let rec: Listing = l.listing_info(&b"m".to_vec(), ASSET).unwrap();
    assert_eq!(rec.bump, listing_bump(&b"m".to_vec(), ASSET));
}

#[test]
fn longest_allowed_name() {
    let mut l = Ledger::new();
    let long = vec![b'x'; 32];
    assert_eq!(l.initialize(ADMIN, long.clone(), 250), Ok(()));
    assert!(l.marketplace_info(&long).is_some());
}

#[test]
fn empty_name_is_a_name_like_any_other() {
    let mut l = Ledger::new();
    assert_eq!(l.initialize(ADMIN, Vec::new(), 250), Ok(()));
    assert_eq!(l.initialize(ADMIN, Vec::new(), 250), Err(MarketplaceError::AlreadyExists));
}

#[test]
fn wallets_and_holdings_are_independent() {
    let mut l = Ledger::new();
    l.airdrop(SELLER, 10);
    l.mint_to(SELLER, ASSET, 4);
    l.mint_to(SELLER, 500, 6);
    l.airdrop(BUYER, 20);
    assert_eq!(l.wallet_balance(SELLER), 10);
    assert_eq!(l.balance_of(SELLER, ASSET), 4);
    assert_eq!(l.balance_of(SELLER, 500), 6);
    assert_eq!(l.wallet_balance(BUYER), 20);
    assert_eq!(l.balance_of(BUYER, ASSET), 0);
}
