//! The persistent records of the system and the per-instruction
//! account contexts that build them.

use vstd::prelude::*;

use crate::addr::{bump_spec, TAG_MARKETPLACE, TAG_TREASURY, TAG_REWARDS};
use crate::bytes::clone_bytes;

verus! {

/// Core configuration record of one marketplace instance, created once
/// by `initialize` and immutable afterwards.
pub struct Marketplace {
    /// Platform administrator, owner of future privileged actions.
    pub admin: u64,
    /// Transaction fee in basis points (250 = 2.5%).
    pub fee: u16,
    /// Derivation nonce of the marketplace account itself.
    pub bump: u8,
    /// Derivation nonce of the treasury account.
    pub treasury_bump: u8,
    /// Derivation nonce of the reward token mint.
    pub rewards_bump: u8,
    /// Display name, at most 32 bytes; part of the derivation seed,
    /// hence immutable for the marketplace's lifetime.
    pub name: Vec<u8>,
}

impl Marketplace {
    /// The record is internally consistent: the name is within bounds
    /// and every stored nonce is the one the derivation yields for
    /// this name.
    pub open spec fn wf(self) -> bool {
        &&& self.name@.len() <= 32
        &&& self.bump == bump_spec(TAG_MARKETPLACE, self.name@)
        &&& self.treasury_bump == bump_spec(TAG_TREASURY, self.name@)
        &&& self.rewards_bump == bump_spec(TAG_REWARDS, self.name@)
    }
}

/// One active sale offer, created by `list`, destroyed by `delist` or
/// `purchase`.
#[derive(Clone, Copy)]
pub struct Listing {
    /// Original seller, entitled to the proceeds or the asset's return.
    pub maker: u64,
    /// Mint of the asset being sold.
    pub maker_mint: u64,
    /// Sale price in value units.
    pub price: u64,
    /// Derivation nonce of this listing's own address.
    pub bump: u8,
}

/// Derivation nonces produced while setting up a marketplace's
/// accounts, retained inside the created record.
pub struct InitializeBumps {
    pub marketplace: u8,
    pub treasury: u8,
    pub rewards_mint: u8,
}

/// Derivation nonce produced while setting up a listing account.
pub struct ListBumps {
    pub listing: u8,
}

/// An asset's link to a collection, as certified by the metadata
/// registry collaborator.
#[derive(Clone, Copy)]
pub struct CollectionLink {
    /// The collection's mint.
    pub key: u64,
    /// Whether the collection authority has verified the link.
    pub verified: bool,
}

/// The part of an asset's metadata record that listing reads.
#[derive(Clone, Copy)]
pub struct NftMetadata {
    /// The collection the asset claims to belong to, if any.
    pub collection: Option<CollectionLink>,
}

/// The collection check performed at `list` time: the metadata must
/// link the asset to exactly the claimed collection, and the link must
/// be verified.  Absent, unverified or mismatched links fail closed.
pub open spec fn collection_ok(meta: NftMetadata, collection_mint: u64) -> bool {
    match meta.collection {
        Some(link) => link.key == collection_mint && link.verified,
        None => false,
    }
}

/// Executable form of [`collection_ok`].
pub fn check_collection(meta: &NftMetadata, collection_mint: u64) -> (r: bool)
    ensures
        r == collection_ok(*meta, collection_mint),
{
    match meta.collection {
        Some(link) => link.key == collection_mint && link.verified,
        None => false,
    }
}

/// The validated account context of `initialize`: the signing admin
/// and the name selecting the new marketplace's address.
pub struct Initialize {
    /// The signer funding and administering the new marketplace.
    pub admin: u64,
    /// The name seeding the marketplace's address.
    pub name: Vec<u8>,
}

impl Initialize {
    /// Populates the marketplace record for this context: the caller
    /// becomes the admin, and the freshly derived nonces are retained.
    pub fn init(&self, fee: u16, bumps: &InitializeBumps) -> (m: Marketplace)
        ensures
            m.admin == self.admin,
            m.fee == fee,
            m.bump == bumps.marketplace,
            m.treasury_bump == bumps.treasury,
            m.rewards_bump == bumps.rewards_mint,
            m.name@ == self.name@,
    {
        Marketplace {
            admin: self.admin,
            fee,
            bump: bumps.marketplace,
            treasury_bump: bumps.treasury,
            rewards_bump: bumps.rewards_mint,
            name: clone_bytes(&self.name),
        }
    }
}

/// The validated account context of `list`: the signing seller, the
/// asset, and the name selecting the marketplace.
pub struct List {
    /// The signer offering the asset for sale.
    pub maker: u64,
    /// Mint of the asset being offered.
    pub maker_mint: u64,
    /// Name of the marketplace hosting the listing.
    pub name: Vec<u8>,
}

impl List {
    /// Establishes the listing record with the price and the seller's
    /// identity.
    pub fn create_listing(&self, price: u64, bumps: &ListBumps) -> (l: Listing)
        ensures
            l.maker == self.maker,
            l.maker_mint == self.maker_mint,
            l.price == price,
            l.bump == bumps.listing,
    {
        Listing { maker: self.maker, maker_mint: self.maker_mint, price, bump: bumps.listing }
    }
}

} // verus!
