//! Escrow-based marketplace for unique digital assets.
//!
//! A platform operator configures a marketplace with a fee rate; sellers
//! list an asset by moving it into a custody vault; buyers purchase a
//! listed asset by paying the listed price, split between seller proceeds
//! and the platform fee; sellers may instead reclaim an unsold asset by
//! delisting.
//!
//! The host ledger is modelled as plain data: accounts are keyed by
//! deterministically derived addresses (see [`addr`]), identities and
//! asset mints are integer ids, and each entry point is a verified
//! all-or-nothing transition on the [`ledger::Ledger`] state.

use vstd::prelude::*;

pub mod addr;
pub mod bytes;
pub mod state;
pub mod ledger;
pub mod laws;

verus! {

/// Why a transaction was rejected. Every error aborts the whole
/// transaction with zero side effects.
#[derive(Clone, Copy, Debug, PartialEq, Eq, Structural)]
pub enum MarketplaceError {
    /// A derived address or its stored nonce does not match the stored
    /// record: a forged or stale account reference.
    AddressMismatch,
    /// Creation was attempted at an address that is already occupied
    /// (duplicate marketplace name, double-listing of the same asset).
    AlreadyExists,
    /// The referenced marketplace or listing does not exist.
    NotFound,
    /// The caller does not match the required owner.
    Unauthorized,
    /// The asset's collection link is absent, unverified, or names a
    /// different collection.
    UnverifiedCollection,
    /// A value or asset transfer cannot be satisfied.
    InsufficientFunds,
}

} // verus!
