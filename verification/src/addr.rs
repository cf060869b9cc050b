//! Deterministic address derivation.
//!
//! Every account of the system lives at an address derived from a
//! namespace tag and an ordered sequence of seed values; the seed design
//! is the authorization mechanism: operating on a record requires
//! presenting the seeds that derive its own address.  The seed table:
//!
//! | account     | seeds                                   |
//! |-------------|-----------------------------------------|
//! | marketplace | marketplace tag, name                   |
//! | treasury    | treasury tag, name of its marketplace   |
//! | reward mint | rewards tag, name of its marketplace    |
//! | listing     | marketplace address, asset mint         |
//! | vault       | holding account of (mint, listing)      |
//!
//! An [`Address`] keeps its seeds as structured data, so identical seeds
//! always give identical addresses, and distinct seeds give distinct
//! addresses — exactly, not merely with overwhelming probability.
//! Beside the address a small disambiguation nonce (the "bump") is
//! derived by folding the seed bytes; records retain their bumps so
//! that later instructions can check a presented account against the
//! derivation without re-searching.

use vstd::prelude::*;

verus! {

/// Namespace tag for marketplace accounts.
pub const TAG_MARKETPLACE: u8 = 1;

/// Namespace tag for treasury accounts.
pub const TAG_TREASURY: u8 = 2;

/// Namespace tag for reward-mint accounts.
pub const TAG_REWARDS: u8 = 3;

/// Namespace tag for listing accounts.
pub const TAG_LISTING: u8 = 4;

/// Namespace tag for escrow vault accounts.
pub const TAG_VAULT: u8 = 5;

/// A derived account address: the namespace tag together with the seed
/// values, kept as structured data.  Two addresses are equal exactly
/// when their kind and seeds are equal.
pub enum Address {
    /// Derived from the marketplace tag and the marketplace name.
    Marketplace { name: Seq<u8> },
    /// Derived from the treasury tag and the owning marketplace.
    Treasury { name: Seq<u8> },
    /// Derived from the rewards tag and the owning marketplace.
    RewardMint { name: Seq<u8> },
    /// Derived from the owning marketplace and the asset mint.
    Listing { name: Seq<u8>, mint: u64 },
    /// The holding account of the asset, owned by the listing.
    Vault { name: Seq<u8>, mint: u64 },
}

/// Address of the marketplace named `name`.
pub open spec fn marketplace_address(name: Seq<u8>) -> Address {
    Address::Marketplace { name }
}

/// Address of the treasury of the marketplace named `name`.
pub open spec fn treasury_address(name: Seq<u8>) -> Address {
    Address::Treasury { name }
}

/// Address of the reward mint of the marketplace named `name`.
pub open spec fn reward_mint_address(name: Seq<u8>) -> Address {
    Address::RewardMint { name }
}

/// Address of the listing of asset `mint` on the marketplace named `name`.
pub open spec fn listing_address(name: Seq<u8>, mint: u64) -> Address {
    Address::Listing { name, mint }
}

/// Address of the escrow vault paired with the listing of `mint` on the
/// marketplace named `name`.
pub open spec fn vault_address(name: Seq<u8>, mint: u64) -> Address {
    Address::Vault { name, mint }
}

/// Fold of a byte string into a single byte, the heart of the bump
/// derivation: deterministic in the seeds and nothing else.
pub open spec fn mix_spec(s: Seq<u8>) -> u8
    decreases s.len(),
{
    if s.len() == 0 {
        181u8
    } else {
        (((mix_spec(s.drop_last()) as nat) * 33 + s.last() as nat) % 256) as u8
    }
}

/// The disambiguation nonce derived beside the address from `tag` and
/// the byte-string seed `seeds`.
pub open spec fn bump_spec(tag: u8, seeds: Seq<u8>) -> u8 {
    (((tag as nat) + (mix_spec(seeds) as nat)) % 256) as u8
}

/// The nonce for a listing, whose seeds are its marketplace's address
/// (determined by `name`) and the asset `mint`.
pub open spec fn listing_bump_spec(name: Seq<u8>, mint: u64) -> u8 {
    (((TAG_LISTING as nat) + (mix_spec(name) as nat) + (mint as nat) % 256) % 256) as u8
}

/// Executable fold over a byte string, equal to [`mix_spec`].
pub fn mix(s: &Vec<u8>) -> (r: u8)
    ensures
        r == mix_spec(s@),
{
    let mut acc: u32 = 181;
    let mut i: usize = 0;
    assert(s@.subrange(0, 0) =~= Seq::<u8>::empty());
    while i < s.len()
        invariant
            i <= s@.len(),
            acc == mix_spec(s@.subrange(0, i as int)) as u32,
        decreases s@.len() - i,
    {
        let ghost pre = s@.subrange(0, i as int);
        let ghost post = s@.subrange(0, i as int + 1);
        acc = (acc * 33 + s[i] as u32) % 256;
        proof {
            assert(post.drop_last() =~= pre);
            assert(post.last() == s@[i as int]);
        }
        i = i + 1;
    }
    assert(s@.subrange(0, s@.len() as int) =~= s@);
    acc as u8
}

/// Executable bump derivation, equal to [`bump_spec`].
pub fn bump(tag: u8, seeds: &Vec<u8>) -> (r: u8)
    ensures
        r == bump_spec(tag, seeds@),
{
    let m = mix(seeds);
    (((tag as u32) + (m as u32)) % 256) as u8
}

/// Executable listing bump, equal to [`listing_bump_spec`].
pub fn listing_bump(name: &Vec<u8>, mint: u64) -> (r: u8)
    ensures
        r == listing_bump_spec(name@, mint),
{
    let m = mix(name);
    (((TAG_LISTING as u64) + (m as u64) + mint % 256) % 256) as u8
}

/// Determinism and forgery-resistance of the derivation: identical
/// seeds give identical addresses, and the addresses of the five
/// account kinds never collide with each other, nor with the address
/// derived from any other seeds.
pub proof fn lemma_address_injective(a: Seq<u8>, b: Seq<u8>, ma: u64, mb: u64)
    ensures
        marketplace_address(a) == marketplace_address(b) ==> a == b,
        treasury_address(a) == treasury_address(b) ==> a == b,
        reward_mint_address(a) == reward_mint_address(b) ==> a == b,
        listing_address(a, ma) == listing_address(b, mb) ==> a == b && ma == mb,
        vault_address(a, ma) == vault_address(b, mb) ==> a == b && ma == mb,
        marketplace_address(a) != treasury_address(b),
        marketplace_address(a) != reward_mint_address(b),
        marketplace_address(a) != listing_address(b, mb),
        marketplace_address(a) != vault_address(b, mb),
        treasury_address(a) != reward_mint_address(b),
        treasury_address(a) != listing_address(b, mb),
        treasury_address(a) != vault_address(b, mb),
        reward_mint_address(a) != listing_address(b, mb),
        reward_mint_address(a) != vault_address(b, mb),
        listing_address(a, ma) != vault_address(b, mb),
{
}

} // verus!
