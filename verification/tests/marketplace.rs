use nft_marketplace::ledger::Ledger;
use nft_marketplace::state::{CollectionLink, NftMetadata};
use nft_marketplace::MarketplaceError;

const ADMIN: u64 = 1;
const SELLER: u64 = 2;
const BUYER: u64 = 3;
const ASSET_X: u64 = 100;
const COLLECTION_C: u64 = 200;

fn verified_meta() -> NftMetadata {
    NftMetadata { collection: Some(CollectionLink { key: COLLECTION_C, verified: true }) }
}

fn name() -> Vec<u8> {
    b"ArtHouse".to_vec()
}

/// A marketplace with fee 250 bps, a seller holding one unit of the
/// asset, and a funded buyer.
fn setup() -> Ledger {
    let mut l = Ledger::new();
    assert_eq!(l.initialize(ADMIN, name(), 250), Ok(()));
    l.mint_to(SELLER, ASSET_X, 1);
    l.airdrop(BUYER, 2_000_000);
    l
}

#[test]
fn initialize_creates_marketplace() {
    let mut l = Ledger::new();
    assert_eq!(l.initialize(ADMIN, name(), 250), Ok(()));
    let info = l.marketplace_info(&name()).unwrap();
    assert_eq!(info.0, ADMIN);
    assert_eq!(info.1, 250);
    assert_eq!(l.treasury_balance(&name()), 0);
}

#[test]
fn initialize_same_name_fails() {
    let mut l = Ledger::new();
    assert_eq!(l.initialize(ADMIN, name(), 250), Ok(()));
    assert_eq!(l.initialize(ADMIN, name(), 100), Err(MarketplaceError::AlreadyExists));
    // Another admin fares no better: the name's address is occupied.
    assert_eq!(l.initialize(4, name(), 0), Err(MarketplaceError::AlreadyExists));
    // The original configuration is untouched.
    let info = l.marketplace_info(&name()).unwrap();
    assert_eq!(info.0, ADMIN);
    assert_eq!(info.1, 250);
}

#[test]
fn initialize_distinct_names_coexist() {
    let mut l = Ledger::new();
    assert_eq!(l.initialize(ADMIN, b"ArtHouse".to_vec(), 250), Ok(()));
    assert_eq!(l.initialize(4, b"OtherHouse".to_vec(), 500), Ok(()));
    assert_eq!(l.marketplace_info(&b"ArtHouse".to_vec()).unwrap().1, 250);
    assert_eq!(l.marketplace_info(&b"OtherHouse".to_vec()).unwrap().1, 500);
}

#[test]
fn list_moves_asset_into_escrow() {
    let mut l = setup();
    assert_eq!(l.listing(SELLER, name(), ASSET_X, COLLECTION_C, verified_meta(), 1_000_000), Ok(()));
    let rec = l.listing_info(&name(), ASSET_X).unwrap();
    assert_eq!(rec.maker, SELLER);
    assert_eq!(rec.maker_mint, ASSET_X);
    assert_eq!(rec.price, 1_000_000);
    assert_eq!(l.balance_of(SELLER, ASSET_X), 0);
    assert_eq!(l.vault_balance(&name(), ASSET_X), 1);
}

#[test]
fn list_deposits_entire_balance() {
    let mut l = setup();
    l.mint_to(SELLER, ASSET_X, 4);
    assert_eq!(l.listing(SELLER, name(), ASSET_X, COLLECTION_C, verified_meta(), 50), Ok(()));
    assert_eq!(l.balance_of(SELLER, ASSET_X), 0);
    assert_eq!(l.vault_balance(&name(), ASSET_X), 5);
}

#[test]
fn list_unknown_marketplace_fails() {
    let mut l = setup();
    let r = l.listing(SELLER, b"NoSuch".to_vec(), ASSET_X, COLLECTION_C, verified_meta(), 10);
    assert_eq!(r, Err(MarketplaceError::NotFound));
}

#[test]
fn list_without_holding_fails() {
    let mut l = setup();
    let r = l.listing(BUYER, name(), ASSET_X, COLLECTION_C, verified_meta(), 10);
    assert_eq!(r, Err(MarketplaceError::InsufficientFunds));
    assert!(l.listing_info(&name(), ASSET_X).is_none());
}

#[test]
fn list_unverified_collection_fails() {
    let mut l = setup();
    let meta = NftMetadata { collection: Some(CollectionLink { key: COLLECTION_C, verified: false }) };
    let r = l.listing(SELLER, name(), ASSET_X, COLLECTION_C, meta, 10);
    assert_eq!(r, Err(MarketplaceError::UnverifiedCollection));
    // No listing, no vault, and the seller keeps the asset.
    assert!(l.listing_info(&name(), ASSET_X).is_none());
    assert_eq!(l.vault_balance(&name(), ASSET_X), 0);
    assert_eq!(l.balance_of(SELLER, ASSET_X), 1);
}

#[test]
fn list_absent_collection_link_fails() {
    let mut l = setup();
    let meta = NftMetadata { collection: None };
    let r = l.listing(SELLER, name(), ASSET_X, COLLECTION_C, meta, 10);
    assert_eq!(r, Err(MarketplaceError::UnverifiedCollection));
}

#[test]
fn list_mismatched_collection_fails() {
    let mut l = setup();
    let meta = NftMetadata { collection: Some(CollectionLink { key: 999, verified: true }) };
    let r = l.listing(SELLER, name(), ASSET_X, COLLECTION_C, meta, 10);
    assert_eq!(r, Err(MarketplaceError::UnverifiedCollection));
}

#[test]
fn list_while_listed_fails() {
    let mut l = setup();
    assert_eq!(l.listing(SELLER, name(), ASSET_X, COLLECTION_C, verified_meta(), 10), Ok(()));
    // The asset's only unit now sits in escrow, so the seller holds
    // none of it — yet the occupied (marketplace, asset) address is
    // what rejects the attempt, not the empty balance.
    let r = l.listing(SELLER, name(), ASSET_X, COLLECTION_C, verified_meta(), 20);
    assert_eq!(r, Err(MarketplaceError::AlreadyExists));
    // The original listing is untouched.
    assert_eq!(l.listing_info(&name(), ASSET_X).unwrap().price, 10);
    assert_eq!(l.vault_balance(&name(), ASSET_X), 1);
    assert_eq!(l.balance_of(SELLER, ASSET_X), 0);
}

#[test]
fn list_collision_beats_every_other_error() {
    let mut l = setup();
    assert_eq!(l.listing(SELLER, name(), ASSET_X, COLLECTION_C, verified_meta(), 10), Ok(()));
    // Even a caller with no holding and an unverified link is told
    // the address is occupied.
    let bad = NftMetadata { collection: Some(CollectionLink { key: COLLECTION_C, verified: false }) };
    let r = l.listing(BUYER, name(), ASSET_X, COLLECTION_C, bad, 20);
    assert_eq!(r, Err(MarketplaceError::AlreadyExists));
}

#[test]
fn list_checks_collection_before_balance() {
    let mut l = setup();
    // No listing is active; a caller holding none of the asset and
    // presenting an unverified link fails on the link first.
    let bad = NftMetadata { collection: Some(CollectionLink { key: COLLECTION_C, verified: false }) };
    let r = l.listing(BUYER, name(), ASSET_X, COLLECTION_C, bad, 20);
    assert_eq!(r, Err(MarketplaceError::UnverifiedCollection));
}

#[test]
fn delist_returns_asset() {
    let mut l = setup();
    assert_eq!(l.listing(SELLER, name(), ASSET_X, COLLECTION_C, verified_meta(), 10), Ok(()));
    assert_eq!(l.delisting(&name(), ASSET_X, SELLER), Ok(()));
    assert_eq!(l.balance_of(SELLER, ASSET_X), 1);
    assert!(l.listing_info(&name(), ASSET_X).is_none());
    assert_eq!(l.vault_balance(&name(), ASSET_X), 0);
}

#[test]
fn delist_by_stranger_fails() {
    let mut l = setup();
    assert_eq!(l.listing(SELLER, name(), ASSET_X, COLLECTION_C, verified_meta(), 10), Ok(()));
    assert_eq!(l.delisting(&name(), ASSET_X, BUYER), Err(MarketplaceError::Unauthorized));
    // Custody is unchanged.
    assert_eq!(l.vault_balance(&name(), ASSET_X), 1);
    assert_eq!(l.balance_of(SELLER, ASSET_X), 0);
}

#[test]
fn delist_unknown_listing_fails() {
    let mut l = setup();
    assert_eq!(l.delisting(&name(), ASSET_X, SELLER), Err(MarketplaceError::NotFound));
}

#[test]
fn relist_after_delist() {
    let mut l = setup();
    assert_eq!(l.listing(SELLER, name(), ASSET_X, COLLECTION_C, verified_meta(), 10), Ok(()));
    assert_eq!(l.delisting(&name(), ASSET_X, SELLER), Ok(()));
    // The address is free again.
    assert_eq!(l.listing(SELLER, name(), ASSET_X, COLLECTION_C, verified_meta(), 20), Ok(()));
    assert_eq!(l.listing_info(&name(), ASSET_X).unwrap().price, 20);
}

#[test]
fn purchase_pays_seller_and_treasury() {
    let mut l = setup();
    assert_eq!(l.listing(SELLER, name(), ASSET_X, COLLECTION_C, verified_meta(), 1_000_000), Ok(()));
    assert_eq!(l.purchase(&name(), ASSET_X, BUYER), Ok(()));
    assert_eq!(l.treasury_balance(&name()), 25_000);
    assert_eq!(l.wallet_balance(SELLER), 975_000);
    assert_eq!(l.wallet_balance(BUYER), 1_000_000);
    assert_eq!(l.balance_of(BUYER, ASSET_X), 1);
    assert!(l.listing_info(&name(), ASSET_X).is_none());
    assert_eq!(l.vault_balance(&name(), ASSET_X), 0);
}

#[test]
fn purchase_unknown_listing_fails() {
    let mut l = setup();
    assert_eq!(l.purchase(&name(), ASSET_X, BUYER), Err(MarketplaceError::NotFound));
}

#[test]
fn purchase_underfunded_buyer_fails() {
    let mut l = setup();
    assert_eq!(l.listing(SELLER, name(), ASSET_X, COLLECTION_C, verified_meta(), 5_000_000), Ok(()));
    let r = l.purchase(&name(), ASSET_X, BUYER);
    assert_eq!(r, Err(MarketplaceError::InsufficientFunds));
    // Nothing moved: custody, funds and the listing are all intact.
    assert_eq!(l.wallet_balance(BUYER), 2_000_000);
    assert_eq!(l.wallet_balance(SELLER), 0);
    assert_eq!(l.treasury_balance(&name()), 0);
    assert_eq!(l.balance_of(BUYER, ASSET_X), 0);
    assert_eq!(l.vault_balance(&name(), ASSET_X), 1);
    assert_eq!(l.listing_info(&name(), ASSET_X).unwrap().price, 5_000_000);
}

#[test]
fn purchase_with_excessive_fee_rate_fails_closed() {
    let mut l = Ledger::new();
    // `initialize` places no bound on the fee rate; a rate above
    // 10000 bps makes the fee exceed the price, so the purchase must
    // fail rather than overpay the treasury.
    assert_eq!(l.initialize(ADMIN, name(), 20_000), Ok(()));
    l.mint_to(SELLER, ASSET_X, 1);
    l.airdrop(BUYER, 2_000_000);
    assert_eq!(l.listing(SELLER, name(), ASSET_X, COLLECTION_C, verified_meta(), 1_000_000), Ok(()));
    assert_eq!(l.purchase(&name(), ASSET_X, BUYER), Err(MarketplaceError::InsufficientFunds));
    assert_eq!(l.wallet_balance(BUYER), 2_000_000);
    assert_eq!(l.vault_balance(&name(), ASSET_X), 1);
}

#[test]
fn purchase_by_seller_pays_only_the_fee() {
    let mut l = setup();
    l.airdrop(SELLER, 1_000_000);
    assert_eq!(l.listing(SELLER, name(), ASSET_X, COLLECTION_C, verified_meta(), 1_000_000), Ok(()));
    assert_eq!(l.purchase(&name(), ASSET_X, SELLER), Ok(()));
    // The seller bought their own listing: the price round-trips and
    // only the fee leaves their wallet.
    assert_eq!(l.wallet_balance(SELLER), 975_000);
    assert_eq!(l.treasury_balance(&name()), 25_000);
    assert_eq!(l.balance_of(SELLER, ASSET_X), 1);
}

#[test]
fn purchase_zero_fee_rate() {
    let mut l = Ledger::new();
    assert_eq!(l.initialize(ADMIN, name(), 0), Ok(()));
    l.mint_to(SELLER, ASSET_X, 1);
    l.airdrop(BUYER, 500);
    assert_eq!(l.listing(SELLER, name(), ASSET_X, COLLECTION_C, verified_meta(), 500), Ok(()));
    assert_eq!(l.purchase(&name(), ASSET_X, BUYER), Ok(()));
    assert_eq!(l.wallet_balance(SELLER), 500);
    assert_eq!(l.treasury_balance(&name()), 0);
}

#[test]
fn purchase_full_fee_rate() {
    let mut l = Ledger::new();
    assert_eq!(l.initialize(ADMIN, name(), 10_000), Ok(()));
    l.mint_to(SELLER, ASSET_X, 1);
    l.airdrop(BUYER, 500);
    assert_eq!(l.listing(SELLER, name(), ASSET_X, COLLECTION_C, verified_meta(), 500), Ok(()));
    assert_eq!(l.purchase(&name(), ASSET_X, BUYER), Ok(()));
    assert_eq!(l.wallet_balance(SELLER), 0);
    assert_eq!(l.treasury_balance(&name()), 500);
}
