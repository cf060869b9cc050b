//! The modelled host ledger and the four entry points.
//!
//! The ledger is a content-addressed store: marketplaces are keyed by
//! their name, listings by (marketplace name, asset mint), holding
//! accounts by (owner, mint), and wallets by owner — exactly the seeds
//! that derive each account's address (see [`crate::addr`]).  Each
//! entry point is a single all-or-nothing transition: it either
//! returns `Ok` with all of its stated effects, or an error with none.
//!
//! Account-creation funding and rent reclamation are the host
//! platform's own bookkeeping and are not modelled: creating or
//! closing a record here moves no value by itself.

use vstd::prelude::*;

use crate::addr::{bump_spec, listing_bump_spec, listing_bump, bump, TAG_MARKETPLACE, TAG_TREASURY, TAG_REWARDS};
use crate::bytes::{bytes_eq, clone_bytes};
use crate::state::{Marketplace, Listing, InitializeBumps, ListBumps, NftMetadata, collection_ok, check_collection, Initialize, List};
use crate::MarketplaceError;

verus! {

/// A marketplace record together with the balance of its treasury,
/// the fee-collecting account derived from it.
pub struct MarketplaceEntry {
    /// The configuration record at the marketplace's derived address.
    pub marketplace: Marketplace,
    /// Value units accumulated by the marketplace's treasury.
    pub treasury: u64,
}

/// An active listing together with its escrow vault.  The vault is a
/// holding account owned by the listing itself, never by a user; it
/// exists exactly as long as the listing does.
pub struct ListingEntry {
    /// Name of the marketplace hosting the listing.
    pub marketplace_name: Vec<u8>,
    /// The listing record at the derived (marketplace, mint) address.
    pub listing: Listing,
    /// Balance of the paired escrow vault.
    pub vault_amount: u64,
}

/// A user's value account.
#[derive(Clone, Copy)]
pub struct Wallet {
    /// The owning identity.
    pub owner: u64,
    /// Balance in value units.
    pub lamports: u64,
}

/// A user's holding account for one asset mint.
#[derive(Clone, Copy)]
pub struct TokenBalance {
    /// The owning identity.
    pub owner: u64,
    /// The asset mint held.
    pub mint: u64,
    /// Units held.
    pub amount: u64,
}

// ---------------------------------------------------------------------
// Keyed views of the four tables.
// ---------------------------------------------------------------------

/// No two marketplace entries share a name.
pub open spec fn marketplaces_unique(s: Seq<MarketplaceEntry>) -> bool {
    forall|i: int, j: int|
        0 <= i < s.len() && 0 <= j < s.len() && i != j ==> (#[trigger] s[i]).marketplace.name@
            != (#[trigger] s[j]).marketplace.name@
}

/// Some marketplace entry carries `name`.
pub open spec fn has_marketplace_in(s: Seq<MarketplaceEntry>, name: Seq<u8>) -> bool {
    exists|i: int| 0 <= i < s.len() && (#[trigger] s[i]).marketplace.name@ == name
}

/// Index of the marketplace entry carrying `name`.
pub open spec fn marketplace_index_in(s: Seq<MarketplaceEntry>, name: Seq<u8>) -> int {
    choose|i: int| 0 <= i < s.len() && (#[trigger] s[i]).marketplace.name@ == name
}

/// The marketplace entry carrying `name`.
pub open spec fn marketplace_at_in(s: Seq<MarketplaceEntry>, name: Seq<u8>) -> MarketplaceEntry {
    s[marketplace_index_in(s, name)]
}

/// No two listing entries share a (marketplace name, mint) pair.
pub open spec fn listings_unique(s: Seq<ListingEntry>) -> bool {
    forall|i: int, j: int|
        0 <= i < s.len() && 0 <= j < s.len() && i != j ==> !((#[trigger] s[i]).marketplace_name@
            == (#[trigger] s[j]).marketplace_name@ && s[i].listing.maker_mint
            == s[j].listing.maker_mint)
}

/// Some listing entry carries the (name, mint) pair.
pub open spec fn has_listing_in(s: Seq<ListingEntry>, name: Seq<u8>, mint: u64) -> bool {
    exists|i: int|
        0 <= i < s.len() && (#[trigger] s[i]).marketplace_name@ == name && s[i].listing.maker_mint
            == mint
}

/// Index of the listing entry carrying the (name, mint) pair.
pub open spec fn listing_index_in(s: Seq<ListingEntry>, name: Seq<u8>, mint: u64) -> int {
    choose|i: int|
        0 <= i < s.len() && (#[trigger] s[i]).marketplace_name@ == name && s[i].listing.maker_mint
            == mint
}

/// The listing entry carrying the (name, mint) pair.
pub open spec fn listing_at_in(s: Seq<ListingEntry>, name: Seq<u8>, mint: u64) -> ListingEntry {
    s[listing_index_in(s, name, mint)]
}

/// No two wallets share an owner.
pub open spec fn wallets_unique(s: Seq<Wallet>) -> bool {
    forall|i: int, j: int|
        0 <= i < s.len() && 0 <= j < s.len() && i != j ==> (#[trigger] s[i]).owner
            != (#[trigger] s[j]).owner
}

/// Some wallet belongs to `owner`.
pub open spec fn has_wallet_in(s: Seq<Wallet>, owner: u64) -> bool {
    exists|i: int| 0 <= i < s.len() && (#[trigger] s[i]).owner == owner
}

/// Index of `owner`'s wallet.
pub open spec fn wallet_index_in(s: Seq<Wallet>, owner: u64) -> int {
    choose|i: int| 0 <= i < s.len() && (#[trigger] s[i]).owner == owner
}

/// `owner`'s value balance; an absent wallet holds zero.
pub open spec fn lamports_in(s: Seq<Wallet>, owner: u64) -> u64 {
    if has_wallet_in(s, owner) {
        s[wallet_index_in(s, owner)].lamports
    } else {
        0
    }
}

/// No two holding accounts share an (owner, mint) pair.
pub open spec fn tokens_unique(s: Seq<TokenBalance>) -> bool {
    forall|i: int, j: int|
        0 <= i < s.len() && 0 <= j < s.len() && i != j ==> !((#[trigger] s[i]).owner
            == (#[trigger] s[j]).owner && s[i].mint == s[j].mint)
}

/// Some holding account carries the (owner, mint) pair.
pub open spec fn has_token_in(s: Seq<TokenBalance>, owner: u64, mint: u64) -> bool {
    exists|i: int|
        0 <= i < s.len() && (#[trigger] s[i]).owner == owner && s[i].mint == mint
}

/// Index of the (owner, mint) holding account.
pub open spec fn token_index_in(s: Seq<TokenBalance>, owner: u64, mint: u64) -> int {
    choose|i: int|
        0 <= i < s.len() && (#[trigger] s[i]).owner == owner && s[i].mint == mint
}

/// `owner`'s balance of `mint`; an absent holding account holds zero.
pub open spec fn token_amount_in(s: Seq<TokenBalance>, owner: u64, mint: u64) -> u64 {
    if has_token_in(s, owner, mint) {
        s[token_index_in(s, owner, mint)].amount
    } else {
        0
    }
}

// ---------------------------------------------------------------------
// With unique keys, an entry's index is the chosen one.
// ---------------------------------------------------------------------

/// In a uniquely keyed marketplace table, entry `i` is the one found
/// under its own name.
pub proof fn lemma_marketplace_at(s: Seq<MarketplaceEntry>, i: int)
    requires
        marketplaces_unique(s),
        0 <= i < s.len(),
    ensures
        has_marketplace_in(s, s[i].marketplace.name@),
        marketplace_index_in(s, s[i].marketplace.name@) == i,
{
    assert(has_marketplace_in(s, s[i].marketplace.name@));
    let j = marketplace_index_in(s, s[i].marketplace.name@);
    assert(0 <= j < s.len() && s[j].marketplace.name@ == s[i].marketplace.name@);
    if j != i {
        assert(s[i].marketplace.name@ != s[j].marketplace.name@);
    }
}

/// In a uniquely keyed listing table, entry `i` is the one found under
/// its own (name, mint) pair.
pub proof fn lemma_listing_at(s: Seq<ListingEntry>, i: int)
    requires
        listings_unique(s),
        0 <= i < s.len(),
    ensures
        has_listing_in(s, s[i].marketplace_name@, s[i].listing.maker_mint),
        listing_index_in(s, s[i].marketplace_name@, s[i].listing.maker_mint) == i,
{
    assert(has_listing_in(s, s[i].marketplace_name@, s[i].listing.maker_mint));
    let j = listing_index_in(s, s[i].marketplace_name@, s[i].listing.maker_mint);
    if j != i {
        assert(!(s[i].marketplace_name@ == s[j].marketplace_name@ && s[i].listing.maker_mint
            == s[j].listing.maker_mint));
    }
}

/// In a uniquely keyed wallet table, entry `i` is the one found under
/// its own owner.
pub proof fn lemma_wallet_at(s: Seq<Wallet>, i: int)
    requires
        wallets_unique(s),
        0 <= i < s.len(),
    ensures
        has_wallet_in(s, s[i].owner),
        wallet_index_in(s, s[i].owner) == i,
{
    assert(has_wallet_in(s, s[i].owner));
    let j = wallet_index_in(s, s[i].owner);
    if j != i {
        assert(s[i].owner != s[j].owner);
    }
}

/// In a uniquely keyed token table, entry `i` is the one found under
/// its own (owner, mint) pair.
pub proof fn lemma_token_at(s: Seq<TokenBalance>, i: int)
    requires
        tokens_unique(s),
        0 <= i < s.len(),
    ensures
        has_token_in(s, s[i].owner, s[i].mint),
        token_index_in(s, s[i].owner, s[i].mint) == i,
{
    assert(has_token_in(s, s[i].owner, s[i].mint));
    let j = token_index_in(s, s[i].owner, s[i].mint);
    if j != i {
        assert(!(s[i].owner == s[j].owner && s[i].mint == s[j].mint));
    }
}

// ---------------------------------------------------------------------
// How each table operation moves the keyed view.
// ---------------------------------------------------------------------

/// Overwriting the amount of holding account `i` changes that key's
/// balance and no other.
pub proof fn lemma_token_update(s: Seq<TokenBalance>, i: int, nb: TokenBalance)
    requires
        tokens_unique(s),
        0 <= i < s.len(),
        nb.owner == s[i].owner,
        nb.mint == s[i].mint,
    ensures
        tokens_unique(s.update(i, nb)),
        forall|o: u64, m: u64| #![trigger token_amount_in(s.update(i, nb), o, m)]
            token_amount_in(s.update(i, nb), o, m) == (if o == nb.owner && m == nb.mint {
                nb.amount
            } else {
                token_amount_in(s, o, m)
            }),
{
    let t = s.update(i, nb);
    assert forall|k: int| 0 <= k < t.len() implies t[k].owner == s[k].owner && t[k].mint
        == s[k].mint by {}
    assert(tokens_unique(t));
    assert forall|o: u64, m: u64| #![trigger token_amount_in(t, o, m)]
        token_amount_in(t, o, m) == (if o == nb.owner && m == nb.mint {
            nb.amount
        } else {
            token_amount_in(s, o, m)
        }) by {
        if o == nb.owner && m == nb.mint {
            lemma_token_at(t, i);
            assert(token_amount_in(t, o, m) == nb.amount);
        } else {
            if has_token_in(s, o, m) {
                let j = token_index_in(s, o, m);
                lemma_token_at(s, j);
                assert(t[j].owner == o && t[j].mint == m);
                lemma_token_at(t, j);
                assert(token_amount_in(t, o, m) == t[j].amount);
                assert(j != i);
                assert(t[j] == s[j]);
            } else {
                if has_token_in(t, o, m) {
                    let j = token_index_in(t, o, m);
                    assert(0 <= j < t.len() && t[j].owner == o && t[j].mint == m);
                    assert(j != i);
                    assert(s[j].owner == o && s[j].mint == m);
                    assert(has_token_in(s, o, m));
                }
            }
        }
    }
}

/// Appending a holding account under a fresh key adds that key's
/// balance and changes no other.
pub proof fn lemma_token_push(s: Seq<TokenBalance>, nb: TokenBalance)
    requires
        tokens_unique(s),
        !has_token_in(s, nb.owner, nb.mint),
    ensures
        tokens_unique(s.push(nb)),
        forall|o: u64, m: u64| #![trigger token_amount_in(s.push(nb), o, m)]
            token_amount_in(s.push(nb), o, m) == (if o == nb.owner && m == nb.mint {
                nb.amount
            } else {
                token_amount_in(s, o, m)
            }),
{
    let t = s.push(nb);
    assert(t[s.len() as int] == nb);
    assert forall|k: int| 0 <= k < s.len() implies t[k] == s[k] by {}
    assert forall|i: int, j: int|
        0 <= i < t.len() && 0 <= j < t.len() && i != j implies !((#[trigger] t[i]).owner
        == (#[trigger] t[j]).owner && t[i].mint == t[j].mint) by {
        if i < s.len() && j < s.len() {
            assert(!(s[i].owner == s[j].owner && s[i].mint == s[j].mint));
        } else if i < s.len() {
            assert(t[j] == nb);
            if s[i].owner == nb.owner && s[i].mint == nb.mint {
                assert(has_token_in(s, nb.owner, nb.mint));
            }
        } else {
            assert(t[i] == nb);
            if s[j].owner == nb.owner && s[j].mint == nb.mint {
                assert(has_token_in(s, nb.owner, nb.mint));
            }
        }
    }
    assert forall|o: u64, m: u64| #![trigger token_amount_in(t, o, m)]
        token_amount_in(t, o, m) == (if o == nb.owner && m == nb.mint {
            nb.amount
        } else {
            token_amount_in(s, o, m)
        }) by {
        if o == nb.owner && m == nb.mint {
            lemma_token_at(t, s.len() as int);
            assert(token_amount_in(t, o, m) == nb.amount);
        } else {
            if has_token_in(s, o, m) {
                let j = token_index_in(s, o, m);
                lemma_token_at(s, j);
                lemma_token_at(t, j);
                assert(token_amount_in(t, o, m) == t[j].amount);
            } else {
                if has_token_in(t, o, m) {
                    let j = token_index_in(t, o, m);
                    assert(0 <= j < t.len() && t[j].owner == o && t[j].mint == m);
                    assert(j != s.len());
                    assert(has_token_in(s, o, m));
                }
            }
        }
    }
}

/// Overwriting the balance of wallet `i` changes that owner's balance
/// and no other.
pub proof fn lemma_wallet_update(s: Seq<Wallet>, i: int, nw: Wallet)
    requires
        wallets_unique(s),
        0 <= i < s.len(),
        nw.owner == s[i].owner,
    ensures
        wallets_unique(s.update(i, nw)),
        forall|o: u64| #![trigger lamports_in(s.update(i, nw), o)]
            lamports_in(s.update(i, nw), o) == (if o == nw.owner {
                nw.lamports
            } else {
                lamports_in(s, o)
            }),
{
    let t = s.update(i, nw);
    assert forall|k: int| 0 <= k < t.len() implies t[k].owner == s[k].owner by {}
    assert(wallets_unique(t));
    assert forall|o: u64| #![trigger lamports_in(t, o)]
        lamports_in(t, o) == (if o == nw.owner {
            nw.lamports
        } else {
            lamports_in(s, o)
        }) by {
        if o == nw.owner {
            lemma_wallet_at(t, i);
        } else {
            if has_wallet_in(s, o) {
                let j = wallet_index_in(s, o);
                lemma_wallet_at(s, j);
                lemma_wallet_at(t, j);
                assert(j != i);
                assert(t[j] == s[j]);
            } else {
                if has_wallet_in(t, o) {
                    let j = wallet_index_in(t, o);
                    assert(s[j].owner == o);
                    assert(has_wallet_in(s, o));
                }
            }
        }
    }
}

/// Appending a wallet for a fresh owner adds that owner's balance and
/// changes no other.
pub proof fn lemma_wallet_push(s: Seq<Wallet>, nw: Wallet)
    requires
        wallets_unique(s),
        !has_wallet_in(s, nw.owner),
    ensures
        wallets_unique(s.push(nw)),
        forall|o: u64| #![trigger lamports_in(s.push(nw), o)]
            lamports_in(s.push(nw), o) == (if o == nw.owner {
                nw.lamports
            } else {
                lamports_in(s, o)
            }),
{
    let t = s.push(nw);
    assert(t[s.len() as int] == nw);
    assert forall|k: int| 0 <= k < s.len() implies t[k] == s[k] by {}
    assert forall|i: int, j: int|
        0 <= i < t.len() && 0 <= j < t.len() && i != j implies (#[trigger] t[i]).owner
        != (#[trigger] t[j]).owner by {
        if i < s.len() && j < s.len() {
            assert(s[i].owner != s[j].owner);
        } else if i < s.len() {
            if s[i].owner == nw.owner {
                assert(has_wallet_in(s, nw.owner));
            }
        } else {
            if s[j].owner == nw.owner {
                assert(has_wallet_in(s, nw.owner));
            }
        }
    }
    assert forall|o: u64| #![trigger lamports_in(t, o)]
        lamports_in(t, o) == (if o == nw.owner {
            nw.lamports
        } else {
            lamports_in(s, o)
        }) by {
        if o == nw.owner {
            lemma_wallet_at(t, s.len() as int);
        } else {
            if has_wallet_in(s, o) {
                let j = wallet_index_in(s, o);
                lemma_wallet_at(s, j);
                lemma_wallet_at(t, j);
            } else {
                if has_wallet_in(t, o) {
                    let j = wallet_index_in(t, o);
                    assert(j != s.len());
                    assert(has_wallet_in(s, o));
                }
            }
        }
    }
}

/// Overwriting the treasury of marketplace entry `i` changes that
/// name's treasury and nothing of any other name.
pub proof fn lemma_marketplace_update(s: Seq<MarketplaceEntry>, i: int, ne: MarketplaceEntry)
    requires
        marketplaces_unique(s),
        0 <= i < s.len(),
        ne.marketplace.name@ == s[i].marketplace.name@,
    ensures
        marketplaces_unique(s.update(i, ne)),
        forall|n: Seq<u8>| #![trigger has_marketplace_in(s.update(i, ne), n)]
            has_marketplace_in(s.update(i, ne), n) == has_marketplace_in(s, n),
        forall|n: Seq<u8>| #![trigger marketplace_at_in(s.update(i, ne), n)]
            has_marketplace_in(s, n) ==> marketplace_at_in(s.update(i, ne), n) == (
            if n == ne.marketplace.name@ {
                ne
            } else {
                marketplace_at_in(s, n)
            }),
{
    let t = s.update(i, ne);
    assert forall|k: int| 0 <= k < t.len() implies t[k].marketplace.name@
        == s[k].marketplace.name@ by {}
    assert(marketplaces_unique(t));
    assert forall|n: Seq<u8>| #![trigger has_marketplace_in(t, n)]
        has_marketplace_in(t, n) == has_marketplace_in(s, n) by {
        if has_marketplace_in(s, n) {
            let j = marketplace_index_in(s, n);
            assert(t[j].marketplace.name@ == n);
            assert(has_marketplace_in(t, n));
        }
        if has_marketplace_in(t, n) {
            let j = marketplace_index_in(t, n);
            assert(s[j].marketplace.name@ == n);
            assert(has_marketplace_in(s, n));
        }
    }
    assert forall|n: Seq<u8>| #![trigger marketplace_at_in(t, n)]
        has_marketplace_in(s, n) implies marketplace_at_in(t, n) == (
        if n == ne.marketplace.name@ {
            ne
        } else {
            marketplace_at_in(s, n)
        }) by {
        let j = marketplace_index_in(s, n);
        lemma_marketplace_at(s, j);
        lemma_marketplace_at(t, j);
        if n == ne.marketplace.name@ {
            assert(j == i);
        } else {
            assert(j != i);
            assert(t[j] == s[j]);
        }
    }
}

/// Appending a marketplace entry under a fresh name adds that name
/// and changes nothing of any other.
pub proof fn lemma_marketplace_push(s: Seq<MarketplaceEntry>, ne: MarketplaceEntry)
    requires
        marketplaces_unique(s),
        !has_marketplace_in(s, ne.marketplace.name@),
    ensures
        marketplaces_unique(s.push(ne)),
        has_marketplace_in(s.push(ne), ne.marketplace.name@),
        marketplace_at_in(s.push(ne), ne.marketplace.name@) == ne,
        forall|n: Seq<u8>| #![trigger has_marketplace_in(s.push(ne), n)]
            n != ne.marketplace.name@ ==> has_marketplace_in(s.push(ne), n) == has_marketplace_in(
                s, n),
        forall|n: Seq<u8>| #![trigger marketplace_at_in(s.push(ne), n)]
            n != ne.marketplace.name@ && has_marketplace_in(s, n) ==> marketplace_at_in(
                s.push(ne), n) == marketplace_at_in(s, n),
{
    let t = s.push(ne);
    assert(t[s.len() as int] == ne);
    assert forall|k: int| 0 <= k < s.len() implies t[k] == s[k] by {}
    assert forall|i: int, j: int|
        0 <= i < t.len() && 0 <= j < t.len() && i != j implies (#[trigger] t[i]).marketplace.name@
        != (#[trigger] t[j]).marketplace.name@ by {
        if i < s.len() && j < s.len() {
            assert(s[i].marketplace.name@ != s[j].marketplace.name@);
        } else if i < s.len() {
            if s[i].marketplace.name@ == ne.marketplace.name@ {
                assert(has_marketplace_in(s, ne.marketplace.name@));
            }
        } else {
            if s[j].marketplace.name@ == ne.marketplace.name@ {
                assert(has_marketplace_in(s, ne.marketplace.name@));
            }
        }
    }
    lemma_marketplace_at(t, s.len() as int);
    assert forall|n: Seq<u8>| #![trigger has_marketplace_in(t, n)]
        n != ne.marketplace.name@ implies has_marketplace_in(t, n) == has_marketplace_in(s, n) by {
        if has_marketplace_in(s, n) {
            let j = marketplace_index_in(s, n);
            assert(t[j].marketplace.name@ == n);
        }
        if has_marketplace_in(t, n) {
            let j = marketplace_index_in(t, n);
            assert(j != s.len());
            assert(has_marketplace_in(s, n));
        }
    }
    assert forall|n: Seq<u8>| #![trigger marketplace_at_in(t, n)]
        n != ne.marketplace.name@ && has_marketplace_in(s, n) implies marketplace_at_in(t, n)
        == marketplace_at_in(s, n) by {
        let j = marketplace_index_in(s, n);
        lemma_marketplace_at(s, j);
        lemma_marketplace_at(t, j);
    }
}

/// Appending a listing entry under a fresh (name, mint) pair adds
/// that pair and changes nothing of any other.
pub proof fn lemma_listing_push(s: Seq<ListingEntry>, ne: ListingEntry)
    requires
        listings_unique(s),
        !has_listing_in(s, ne.marketplace_name@, ne.listing.maker_mint),
    ensures
        listings_unique(s.push(ne)),
        has_listing_in(s.push(ne), ne.marketplace_name@, ne.listing.maker_mint),
        listing_at_in(s.push(ne), ne.marketplace_name@, ne.listing.maker_mint) == ne,
        forall|n: Seq<u8>, m: u64| #![trigger has_listing_in(s.push(ne), n, m)]
            !(n == ne.marketplace_name@ && m == ne.listing.maker_mint) ==> has_listing_in(
                s.push(ne), n, m) == has_listing_in(s, n, m),
        forall|n: Seq<u8>, m: u64| #![trigger listing_at_in(s.push(ne), n, m)]
            !(n == ne.marketplace_name@ && m == ne.listing.maker_mint) && has_listing_in(s, n, m)
                ==> listing_at_in(s.push(ne), n, m) == listing_at_in(s, n, m),
{
    let t = s.push(ne);
    assert(t[s.len() as int] == ne);
    assert forall|k: int| 0 <= k < s.len() implies t[k] == s[k] by {}
    assert forall|i: int, j: int|
        0 <= i < t.len() && 0 <= j < t.len() && i != j implies !((#[trigger] t[i]).marketplace_name@
        == (#[trigger] t[j]).marketplace_name@ && t[i].listing.maker_mint
        == t[j].listing.maker_mint) by {
        if i < s.len() && j < s.len() {
            assert(!(s[i].marketplace_name@ == s[j].marketplace_name@ && s[i].listing.maker_mint
                == s[j].listing.maker_mint));
        } else if i < s.len() {
            if s[i].marketplace_name@ == ne.marketplace_name@ && s[i].listing.maker_mint
                == ne.listing.maker_mint {
                assert(has_listing_in(s, ne.marketplace_name@, ne.listing.maker_mint));
            }
        } else {
            if s[j].marketplace_name@ == ne.marketplace_name@ && s[j].listing.maker_mint
                == ne.listing.maker_mint {
                assert(has_listing_in(s, ne.marketplace_name@, ne.listing.maker_mint));
            }
        }
    }
    lemma_listing_at(t, s.len() as int);
    assert forall|n: Seq<u8>, m: u64| #![trigger has_listing_in(t, n, m)]
        !(n == ne.marketplace_name@ && m == ne.listing.maker_mint) implies has_listing_in(t, n, m)
        == has_listing_in(s, n, m) by {
        if has_listing_in(s, n, m) {
            let j = listing_index_in(s, n, m);
            assert(t[j].marketplace_name@ == n && t[j].listing.maker_mint == m);
        }
        if has_listing_in(t, n, m) {
            let j = listing_index_in(t, n, m);
            assert(j != s.len());
            assert(has_listing_in(s, n, m));
        }
    }
    assert forall|n: Seq<u8>, m: u64| #![trigger listing_at_in(t, n, m)]
        !(n == ne.marketplace_name@ && m == ne.listing.maker_mint) && has_listing_in(s, n, m)
        implies listing_at_in(t, n, m) == listing_at_in(s, n, m) by {
        let j = listing_index_in(s, n, m);
        lemma_listing_at(s, j);
        lemma_listing_at(t, j);
    }
}

/// Removing listing entry `i` frees its (name, mint) pair and changes
/// nothing of any other.
pub proof fn lemma_listing_remove(s: Seq<ListingEntry>, i: int)
    requires
        listings_unique(s),
        0 <= i < s.len(),
    ensures
        listings_unique(s.remove(i)),
        !has_listing_in(s.remove(i), s[i].marketplace_name@, s[i].listing.maker_mint),
        forall|n: Seq<u8>, m: u64| #![trigger has_listing_in(s.remove(i), n, m)]
            !(n == s[i].marketplace_name@ && m == s[i].listing.maker_mint) ==> has_listing_in(
                s.remove(i), n, m) == has_listing_in(s, n, m),
        forall|n: Seq<u8>, m: u64| #![trigger listing_at_in(s.remove(i), n, m)]
            !(n == s[i].marketplace_name@ && m == s[i].listing.maker_mint) && has_listing_in(
                s, n, m) ==> listing_at_in(s.remove(i), n, m) == listing_at_in(s, n, m),
{
    let t = s.remove(i);
    s.remove_ensures(i);
    assert forall|a: int, b: int|
        0 <= a < t.len() && 0 <= b < t.len() && a != b implies !((#[trigger] t[a]).marketplace_name@
        == (#[trigger] t[b]).marketplace_name@ && t[a].listing.maker_mint
        == t[b].listing.maker_mint) by {
        let a0 = if a < i { a } else { a + 1 };
        let b0 = if b < i { b } else { b + 1 };
        assert(t[a] == s[a0]);
        assert(t[b] == s[b0]);
        assert(a0 != b0);
        assert(!(s[a0].marketplace_name@ == s[b0].marketplace_name@ && s[a0].listing.maker_mint
            == s[b0].listing.maker_mint));
    }
    if has_listing_in(t, s[i].marketplace_name@, s[i].listing.maker_mint) {
        let j = listing_index_in(t, s[i].marketplace_name@, s[i].listing.maker_mint);
        let j0 = if j < i { j } else { j + 1 };
        assert(t[j] == s[j0]);
        assert(j0 != i);
        assert(!(s[j0].marketplace_name@ == s[i].marketplace_name@ && s[j0].listing.maker_mint
            == s[i].listing.maker_mint));
        assert(false);
    }
    assert forall|n: Seq<u8>, m: u64| #![trigger has_listing_in(t, n, m)]
        !(n == s[i].marketplace_name@ && m == s[i].listing.maker_mint) implies has_listing_in(
        t, n, m) == has_listing_in(s, n, m) by {
        if has_listing_in(s, n, m) {
            let j = listing_index_in(s, n, m);
            assert(j != i);
            let j1 = if j < i { j } else { j - 1 };
            assert(t[j1] == s[j]);
            assert(has_listing_in(t, n, m));
        }
        if has_listing_in(t, n, m) {
            let j = listing_index_in(t, n, m);
            let j0 = if j < i { j } else { j + 1 };
            assert(t[j] == s[j0]);
            assert(has_listing_in(s, n, m));
        }
    }
    assert forall|n: Seq<u8>, m: u64| #![trigger listing_at_in(t, n, m)]
        !(n == s[i].marketplace_name@ && m == s[i].listing.maker_mint) && has_listing_in(s, n, m)
        implies listing_at_in(t, n, m) == listing_at_in(s, n, m) by {
        let j = listing_index_in(s, n, m);
        lemma_listing_at(s, j);
        assert(j != i);
        let j1 = if j < i { j } else { j - 1 };
        assert(t[j1] == s[j]);
        lemma_listing_at(t, j1);
    }
}

// ---------------------------------------------------------------------
// The ledger.
// ---------------------------------------------------------------------

/// The whole on-ledger state: every account of the system, keyed by
/// the seeds that derive its address.
pub struct Ledger {
    /// Marketplace records with their treasuries, keyed by name.
    pub marketplaces: Vec<MarketplaceEntry>,
    /// Active listings with their escrow vaults, keyed by
    /// (marketplace name, asset mint).
    pub listings: Vec<ListingEntry>,
    /// User value accounts, keyed by owner.
    pub wallets: Vec<Wallet>,
    /// User holding accounts, keyed by (owner, mint).
    pub tokens: Vec<TokenBalance>,
}

impl Ledger {
    /// Some marketplace is named `name`.
    pub open spec fn has_marketplace(self, name: Seq<u8>) -> bool {
        has_marketplace_in(self.marketplaces@, name)
    }

    /// The marketplace named `name`, with its treasury.
    pub open spec fn marketplace_at(self, name: Seq<u8>) -> MarketplaceEntry {
        marketplace_at_in(self.marketplaces@, name)
    }

    /// Balance of the treasury of the marketplace named `name`; zero
    /// if no such marketplace exists.
    pub open spec fn treasury_of(self, name: Seq<u8>) -> u64 {
        if self.has_marketplace(name) {
            self.marketplace_at(name).treasury
        } else {
            0
        }
    }

    /// An active listing exists for `mint` on the marketplace named
    /// `name`.
    pub open spec fn has_listing(self, name: Seq<u8>, mint: u64) -> bool {
        has_listing_in(self.listings@, name, mint)
    }

    /// The active listing for `mint` on the marketplace named `name`,
    /// with its escrow vault.
    pub open spec fn listing_at(self, name: Seq<u8>, mint: u64) -> ListingEntry {
        listing_at_in(self.listings@, name, mint)
    }

    /// `owner`'s balance of `mint`.
    pub open spec fn token_amount(self, owner: u64, mint: u64) -> u64 {
        token_amount_in(self.tokens@, owner, mint)
    }

    /// `owner`'s value balance.
    pub open spec fn lamports_of(self, owner: u64) -> u64 {
        lamports_in(self.wallets@, owner)
    }

    /// The ledger's invariant, established by [`Ledger::new`] and
    /// preserved by every entry point:
    /// - each table is uniquely keyed, so at most one marketplace
    ///   exists per name and at most one listing per (name, mint);
    /// - every marketplace record is internally consistent (name
    ///   within bounds, stored nonces equal to the derived ones);
    /// - every listing sits on an existing marketplace, retains its
    ///   derived nonce, and its paired vault holds the (positive)
    ///   balance placed in escrow.
    pub open spec fn wf(self) -> bool {
        &&& marketplaces_unique(self.marketplaces@)
        &&& forall|i: int|
            0 <= i < self.marketplaces@.len() ==> (#[trigger] self.marketplaces@[i]).marketplace.wf()
        &&& listings_unique(self.listings@)
        &&& forall|i: int|
            0 <= i < self.listings@.len() ==> {
                let e = #[trigger] self.listings@[i];
                &&& e.marketplace_name@.len() <= 32
                &&& has_marketplace_in(self.marketplaces@, e.marketplace_name@)
                &&& e.listing.bump == listing_bump_spec(e.marketplace_name@, e.listing.maker_mint)
                &&& e.vault_amount >= 1
            }
        &&& wallets_unique(self.wallets@)
        &&& tokens_unique(self.tokens@)
    }

    /// An empty ledger: no marketplaces, listings, wallets or holding
    /// accounts.
    pub fn new() -> (l: Ledger)
        ensures
            l.wf(),
            l.marketplaces@.len() == 0,
            l.listings@.len() == 0,
            l.wallets@.len() == 0,
            l.tokens@.len() == 0,
    {
        Ledger { marketplaces: Vec::new(), listings: Vec::new(), wallets: Vec::new(), tokens: Vec::new() }
    }

    /// Index of the marketplace named `name`, if any.
    fn find_marketplace(&self, name: &Vec<u8>) -> (r: Option<usize>)
        ensures
            match r {
                Some(i) => i < self.marketplaces@.len() && self.marketplaces@[
                    i as int].marketplace.name@ == name@ && self.has_marketplace(name@),
                None => !self.has_marketplace(name@),
            },
    {
        let mut i: usize = 0;
        while i < self.marketplaces.len()
            invariant
                i <= self.marketplaces@.len(),
                forall|j: int|
                    0 <= j < i ==> (#[trigger] self.marketplaces@[j]).marketplace.name@ != name@,
            decreases self.marketplaces@.len() - i,
        {
            if bytes_eq(&self.marketplaces[i].marketplace.name, name) {
                return Some(i);
            }
            i = i + 1;
        }
        None
    }

    /// Index of the listing for (name, mint), if any.
    fn find_listing(&self, name: &Vec<u8>, mint: u64) -> (r: Option<usize>)
        ensures
            match r {
                Some(i) => i < self.listings@.len() && self.listings@[i as int].marketplace_name@
                    == name@ && self.listings@[i as int].listing.maker_mint == mint
                    && self.has_listing(name@, mint),
                None => !self.has_listing(name@, mint),
            },
    {
        let mut i: usize = 0;
        while i < self.listings.len()
            invariant
                i <= self.listings@.len(),
                forall|j: int|
                    0 <= j < i ==> !((#[trigger] self.listings@[j]).marketplace_name@ == name@
                        && self.listings@[j].listing.maker_mint == mint),
            decreases self.listings@.len() - i,
        {
            if self.listings[i].listing.maker_mint == mint && bytes_eq(
                &self.listings[i].marketplace_name, name) {
                return Some(i);
            }
            i = i + 1;
        }
        None
    }

    /// Index of the (owner, mint) holding account, if any.
    fn find_token(&self, owner: u64, mint: u64) -> (r: Option<usize>)
        ensures
            match r {
                Some(i) => i < self.tokens@.len() && self.tokens@[i as int].owner == owner
                    && self.tokens@[i as int].mint == mint && has_token_in(self.tokens@, owner, mint),
                None => !has_token_in(self.tokens@, owner, mint),
            },
    {
        let mut i: usize = 0;
        while i < self.tokens.len()
            invariant
                i <= self.tokens@.len(),
                forall|j: int|
                    0 <= j < i ==> !((#[trigger] self.tokens@[j]).owner == owner
                        && self.tokens@[j].mint == mint),
            decreases self.tokens@.len() - i,
        {
            if self.tokens[i].owner == owner && self.tokens[i].mint == mint {
                return Some(i);
            }
            i = i + 1;
        }
        None
    }

    /// Index of `owner`'s wallet, if any.
    fn find_wallet(&self, owner: u64) -> (r: Option<usize>)
        ensures
            match r {
                Some(i) => i < self.wallets@.len() && self.wallets@[i as int].owner == owner
                    && has_wallet_in(self.wallets@, owner),
                None => !has_wallet_in(self.wallets@, owner),
            },
    {
        let mut i: usize = 0;
        while i < self.wallets.len()
            invariant
                i <= self.wallets@.len(),
                forall|j: int| 0 <= j < i ==> (#[trigger] self.wallets@[j]).owner != owner,
            decreases self.wallets@.len() - i,
        {
            if self.wallets[i].owner == owner {
                return Some(i);
            }
            i = i + 1;
        }
        None
    }

    /// Sets `owner`'s balance of `mint`, touching no other account.
    fn set_token_amount(&mut self, owner: u64, mint: u64, amount: u64)
        requires
            tokens_unique(old(self).tokens@),
        ensures
            tokens_unique(final(self).tokens@),
            forall|o: u64, m: u64| #![trigger final(self).token_amount(o, m)]
                final(self).token_amount(o, m) == (if o == owner && m == mint {
                    amount
                } else {
                    old(self).token_amount(o, m)
                }),
            final(self).marketplaces == old(self).marketplaces,
            final(self).listings == old(self).listings,
            final(self).wallets == old(self).wallets,
    {
        let nb = TokenBalance { owner, mint, amount };
        match self.find_token(owner, mint) {
            Some(i) => {
                proof {
                    lemma_token_update(self.tokens@, i as int, nb);
                }
                self.tokens[i] = nb;
            },
            None => {
                proof {
                    lemma_token_push(self.tokens@, nb);
                }
                self.tokens.push(nb);
            },
        }
    }

    /// Sets the treasury of marketplace entry `i`, touching nothing
    /// else; the marketplace record itself is kept as it is.
    fn set_treasury(&mut self, i: usize, amount: u64)
        requires
            i < old(self).marketplaces@.len(),
        ensures
            final(self).marketplaces@ == old(self).marketplaces@.update(i as int,
                (MarketplaceEntry {
                    marketplace: old(self).marketplaces@[i as int].marketplace,
                    treasury: amount,
                })),
            final(self).listings == old(self).listings,
            final(self).wallets == old(self).wallets,
            final(self).tokens == old(self).tokens,
    {
        self.marketplaces[i].treasury = amount;
    }

    /// Sets `owner`'s value balance, touching no other account.
    fn set_lamports(&mut self, owner: u64, amount: u64)
        requires
            wallets_unique(old(self).wallets@),
        ensures
            wallets_unique(final(self).wallets@),
            forall|o: u64| #![trigger final(self).lamports_of(o)]
                final(self).lamports_of(o) == (if o == owner {
                    amount
                } else {
                    old(self).lamports_of(o)
                }),
            final(self).marketplaces == old(self).marketplaces,
            final(self).listings == old(self).listings,
            final(self).tokens == old(self).tokens,
    {
        let nw = Wallet { owner, lamports: amount };
        match self.find_wallet(owner) {
            Some(i) => {
                proof {
                    lemma_wallet_update(self.wallets@, i as int, nw);
                }
                self.wallets[i] = nw;
            },
            None => {
                proof {
                    lemma_wallet_push(self.wallets@, nw);
                }
                self.wallets.push(nw);
            },
        }
    }
}

// ---------------------------------------------------------------------
// The fee formula.
// ---------------------------------------------------------------------

/// Basis points of a whole: a fee rate of 10000 is the full price.
pub const BPS_DENOMINATOR: u64 = 10000;

/// The platform's cut of a sale: `price * fee_bps / 10000`, with
/// truncating integer division.
pub open spec fn fee_amount_spec(price: u64, fee_bps: u16) -> int {
    (price * fee_bps) / (BPS_DENOMINATOR as int)
}

// ---------------------------------------------------------------------
// Transitions: what a successful entry point does to the ledger.
// ---------------------------------------------------------------------

/// What a successful `initialize` does: the marketplace named `name`
/// now exists, configured with `admin` and `fee` and the derived
/// nonces, its treasury empty; nothing else changed.
pub open spec fn initialize_transition(
    pre: Ledger,
    post: Ledger,
    admin: u64,
    name: Seq<u8>,
    fee: u16,
) -> bool {
    let m = post.marketplace_at(name).marketplace;
    &&& !pre.has_marketplace(name)
    &&& post.has_marketplace(name)
    &&& m.admin == admin
    &&& m.fee == fee
    &&& m.name@ == name
    &&& m.bump == bump_spec(TAG_MARKETPLACE, name)
    &&& m.treasury_bump == bump_spec(TAG_TREASURY, name)
    &&& m.rewards_bump == bump_spec(TAG_REWARDS, name)
    &&& post.marketplace_at(name).treasury == 0
    &&& forall|n: Seq<u8>|
        n != name ==> #[trigger] post.has_marketplace(n) == pre.has_marketplace(n)
    &&& forall|n: Seq<u8>|
        n != name && pre.has_marketplace(n) ==> #[trigger] post.marketplace_at(n)
            == pre.marketplace_at(n)
    &&& post.listings == pre.listings
    &&& post.wallets == pre.wallets
    &&& post.tokens == pre.tokens
}

/// What a successful `list` does: a listing for (name, mint) now
/// exists with the caller as seller and the asked price, the seller's
/// entire holding of the asset moved into the paired escrow vault;
/// nothing else changed.
pub open spec fn list_transition(
    pre: Ledger,
    post: Ledger,
    maker: u64,
    name: Seq<u8>,
    mint: u64,
    price: u64,
) -> bool {
    let e = post.listing_at(name, mint);
    &&& pre.has_marketplace(name)
    &&& pre.token_amount(maker, mint) >= 1
    &&& !pre.has_listing(name, mint)
    &&& post.has_listing(name, mint)
    &&& e.marketplace_name@ == name
    &&& e.listing.maker == maker
    &&& e.listing.maker_mint == mint
    &&& e.listing.price == price
    &&& e.listing.bump == listing_bump_spec(name, mint)
    &&& e.vault_amount == pre.token_amount(maker, mint)
    &&& forall|n: Seq<u8>, m: u64|
        !(n == name && m == mint) ==> #[trigger] post.has_listing(n, m) == pre.has_listing(n, m)
    &&& forall|n: Seq<u8>, m: u64|
        !(n == name && m == mint) && pre.has_listing(n, m) ==> #[trigger] post.listing_at(n, m)
            == pre.listing_at(n, m)
    &&& forall|o: u64, m: u64| #![trigger post.token_amount(o, m)]
        post.token_amount(o, m) == (if o == maker && m == mint {
            0u64
        } else {
            pre.token_amount(o, m)
        })
    &&& post.marketplaces == pre.marketplaces
    &&& post.wallets == pre.wallets
}

/// What a successful `delist` does: the listing for (name, mint) is
/// gone, its vault's entire balance returned to the seller's holding
/// account; nothing else changed.
pub open spec fn delist_transition(pre: Ledger, post: Ledger, name: Seq<u8>, mint: u64) -> bool {
    let e = pre.listing_at(name, mint);
    &&& pre.has_listing(name, mint)
    &&& !post.has_listing(name, mint)
    &&& forall|n: Seq<u8>, m: u64|
        !(n == name && m == mint) ==> #[trigger] post.has_listing(n, m) == pre.has_listing(n, m)
    &&& forall|n: Seq<u8>, m: u64|
        !(n == name && m == mint) && pre.has_listing(n, m) ==> #[trigger] post.listing_at(n, m)
            == pre.listing_at(n, m)
    &&& forall|o: u64, m: u64| #![trigger post.token_amount(o, m)]
        post.token_amount(o, m) == (if o == e.listing.maker && m == mint {
            pre.token_amount(o, m) + e.vault_amount
        } else {
            pre.token_amount(o, m) as int
        })
    &&& post.marketplaces == pre.marketplaces
    &&& post.wallets == pre.wallets
}

/// What a successful `purchase` does: the buyer paid the full price,
/// split into the platform fee (to the treasury) and the seller's
/// proceeds; the vault's entire balance moved to the buyer's holding
/// account; listing and vault are gone; nothing else changed.
pub open spec fn purchase_transition(pre: Ledger, post: Ledger, name: Seq<u8>, mint: u64, buyer: u64) -> bool {
    let e = pre.listing_at(name, mint);
    let seller = e.listing.maker;
    let price = e.listing.price;
    let fee = fee_amount_spec(price, pre.marketplace_at(name).marketplace.fee);
    &&& pre.has_listing(name, mint)
    &&& pre.has_marketplace(name)
    &&& 0 <= fee <= price
    &&& pre.lamports_of(buyer) >= price
    &&& !post.has_listing(name, mint)
    &&& forall|n: Seq<u8>, m: u64|
        !(n == name && m == mint) ==> #[trigger] post.has_listing(n, m) == pre.has_listing(n, m)
    &&& forall|n: Seq<u8>, m: u64|
        !(n == name && m == mint) && pre.has_listing(n, m) ==> #[trigger] post.listing_at(n, m)
            == pre.listing_at(n, m)
    &&& forall|o: u64| #![trigger post.lamports_of(o)]
        post.lamports_of(o) == (if o == buyer && o == seller {
            pre.lamports_of(o) - fee
        } else if o == buyer {
            pre.lamports_of(o) - price
        } else if o == seller {
            pre.lamports_of(o) + price - fee
        } else {
            pre.lamports_of(o) as int
        })
    &&& forall|n: Seq<u8>| #![trigger post.has_marketplace(n)]
        post.has_marketplace(n) == pre.has_marketplace(n)
    &&& forall|n: Seq<u8>| #![trigger post.marketplace_at(n)]
        pre.has_marketplace(n) ==> post.marketplace_at(n).marketplace == pre.marketplace_at(
            n).marketplace
    &&& forall|n: Seq<u8>| #![trigger post.treasury_of(n)]
        post.treasury_of(n) == (if n == name {
            pre.treasury_of(n) + fee
        } else {
            pre.treasury_of(n) as int
        })
    &&& forall|o: u64, m: u64| #![trigger post.token_amount(o, m)]
        post.token_amount(o, m) == (if o == buyer && m == mint {
            pre.token_amount(o, m) + e.vault_amount
        } else {
            pre.token_amount(o, m) as int
        })
}

impl Ledger {
    /// Sets up a new marketplace: creates the configuration record at
    /// the address derived from `name`, with the caller as admin and
    /// the given fee rate, and its empty treasury and reward mint
    /// beside it.  Fails with `AlreadyExists`, changing nothing, when
    /// a marketplace named `name` already occupies that address.
    ///
    /// No upper bound is placed on `fee_bps` here; a rate above 10000
    /// makes any later purchase of that marketplace fail closed.
    pub fn initialize(&mut self, admin: u64, name: Vec<u8>, fee: u16) -> (r: Result<
        (),
        MarketplaceError,
    >)
        requires
            old(self).wf(),
            name@.len() <= 32,
        ensures
            final(self).wf(),
            r == Ok::<(), MarketplaceError>(()) <==> !old(self).has_marketplace(name@),
            r is Err ==> r == Err::<(), MarketplaceError>(MarketplaceError::AlreadyExists)
                && *final(self) == *old(self),
            r is Ok ==> initialize_transition(*old(self), *final(self), admin, name@, fee),
    {
        if self.find_marketplace(&name).is_some() {
            return Err(MarketplaceError::AlreadyExists);
        }
        let bumps = InitializeBumps {
            marketplace: bump(TAG_MARKETPLACE, &name),
            treasury: bump(TAG_TREASURY, &name),
            rewards_mint: bump(TAG_REWARDS, &name),
        };
        let ctx = Initialize { admin, name };
        let m = ctx.init(fee, &bumps);
        let entry = MarketplaceEntry { marketplace: m, treasury: 0 };
        proof {
            lemma_marketplace_push(self.marketplaces@, entry);
        }
        let ghost pre = *self;
        self.marketplaces.push(entry);
        proof {
            assert forall|i: int| 0 <= i < self.marketplaces@.len() implies (
            #[trigger] self.marketplaces@[i]).marketplace.wf() by {
                if i < pre.marketplaces@.len() {
                    assert(self.marketplaces@[i] == pre.marketplaces@[i]);
                } else {
                    assert(self.marketplaces@[i] == entry);
                }
            }
            assert forall|i: int| 0 <= i < self.listings@.len() implies {
                let e = #[trigger] self.listings@[i];
                &&& e.marketplace_name@.len() <= 32
                &&& has_marketplace_in(self.marketplaces@, e.marketplace_name@)
                &&& e.listing.bump == listing_bump_spec(e.marketplace_name@, e.listing.maker_mint)
                &&& e.vault_amount >= 1
            } by {
                let e = self.listings@[i];
                assert(has_marketplace_in(pre.marketplaces@, e.marketplace_name@));
                if e.marketplace_name@ != entry.marketplace.name@ {
                    assert(has_marketplace_in(self.marketplaces@, e.marketplace_name@));
                }
            }
        }
        Ok(())
    }
}


impl Ledger {
    /// `owner`'s balance of `mint`, as recorded in the holding table.
    pub fn balance_of(&self, owner: u64, mint: u64) -> (r: u64)
        requires
            tokens_unique(self.tokens@),
        ensures
            r == self.token_amount(owner, mint),
    {
        match self.find_token(owner, mint) {
            Some(i) => {
                proof {
                    lemma_token_at(self.tokens@, i as int);
                }
                self.tokens[i].amount
            },
            None => 0,
        }
    }

    /// `owner`'s value balance.
    pub fn wallet_balance(&self, owner: u64) -> (r: u64)
        requires
            wallets_unique(self.wallets@),
        ensures
            r == self.lamports_of(owner),
    {
        match self.find_wallet(owner) {
            Some(i) => {
                proof {
                    lemma_wallet_at(self.wallets@, i as int);
                }
                self.wallets[i].lamports
            },
            None => 0,
        }
    }

    /// Balance of the treasury of the marketplace named `name`.
    pub fn treasury_balance(&self, name: &Vec<u8>) -> (r: u64)
        requires
            marketplaces_unique(self.marketplaces@),
        ensures
            r == self.treasury_of(name@),
    {
        match self.find_marketplace(name) {
            Some(i) => {
                proof {
                    lemma_marketplace_at(self.marketplaces@, i as int);
                }
                self.marketplaces[i].treasury
            },
            None => 0,
        }
    }

    /// The admin and fee rate of the marketplace named `name`, if it
    /// exists.
    pub fn marketplace_info(&self, name: &Vec<u8>) -> (r: Option<(u64, u16)>)
        requires
            marketplaces_unique(self.marketplaces@),
        ensures
            match r {
                Some(info) => self.has_marketplace(name@) && info.0 == self.marketplace_at(
                    name@).marketplace.admin && info.1 == self.marketplace_at(
                    name@).marketplace.fee,
                None => !self.has_marketplace(name@),
            },
    {
        match self.find_marketplace(name) {
            Some(i) => {
                proof {
                    lemma_marketplace_at(self.marketplaces@, i as int);
                }
                Some((self.marketplaces[i].marketplace.admin, self.marketplaces[i].marketplace.fee))
            },
            None => None,
        }
    }

    /// The active listing record for (name, mint), if one exists.
    pub fn listing_info(&self, name: &Vec<u8>, mint: u64) -> (r: Option<Listing>)
        requires
            listings_unique(self.listings@),
        ensures
            match r {
                Some(l) => self.has_listing(name@, mint) && l == self.listing_at(name@, mint).listing,
                None => !self.has_listing(name@, mint),
            },
    {
        match self.find_listing(name, mint) {
            Some(i) => {
                proof {
                    lemma_listing_at(self.listings@, i as int);
                }
                Some(self.listings[i].listing)
            },
            None => None,
        }
    }

    /// Balance of the escrow vault paired with the listing for
    /// (name, mint); zero when no listing exists.
    pub fn vault_balance(&self, name: &Vec<u8>, mint: u64) -> (r: u64)
        requires
            listings_unique(self.listings@),
        ensures
            self.has_listing(name@, mint) ==> r == self.listing_at(name@, mint).vault_amount,
            !self.has_listing(name@, mint) ==> r == 0,
    {
        match self.find_listing(name, mint) {
            Some(i) => {
                proof {
                    lemma_listing_at(self.listings@, i as int);
                }
                self.listings[i].vault_amount
            },
            None => 0,
        }
    }

    /// Issues `amount` fresh units of `mint` to `owner`: the
    /// asset-issuance collaborator topping up a holding account.
    pub fn mint_to(&mut self, owner: u64, mint: u64, amount: u64)
        requires
            old(self).wf(),
            old(self).token_amount(owner, mint) + amount <= u64::MAX,
        ensures
            final(self).wf(),
            forall|o: u64, m: u64| #![trigger final(self).token_amount(o, m)]
                final(self).token_amount(o, m) == (if o == owner && m == mint {
                    old(self).token_amount(o, m) + amount
                } else {
                    old(self).token_amount(o, m) as int
                }),
            final(self).marketplaces == old(self).marketplaces,
            final(self).listings == old(self).listings,
            final(self).wallets == old(self).wallets,
    {
        let cur = self.balance_of(owner, mint);
        self.set_token_amount(owner, mint, cur + amount);
    }

    /// Funds `owner`'s wallet with `amount` value units: the host's
    /// funding primitive topping up a value account.
    pub fn airdrop(&mut self, owner: u64, amount: u64)
        requires
            old(self).wf(),
            old(self).lamports_of(owner) + amount <= u64::MAX,
        ensures
            final(self).wf(),
            forall|o: u64| #![trigger final(self).lamports_of(o)]
                final(self).lamports_of(o) == (if o == owner {
                    old(self).lamports_of(o) + amount
                } else {
                    old(self).lamports_of(o) as int
                }),
            final(self).marketplaces == old(self).marketplaces,
            final(self).listings == old(self).listings,
            final(self).tokens == old(self).tokens,
    {
        let cur = self.wallet_balance(owner);
        self.set_lamports(owner, cur + amount);
    }
}

impl Ledger {
    /// Puts an asset up for sale: after validating the marketplace's
    /// derivation, the absence of a competing listing at the derived
    /// (marketplace, asset) address, the asset's verified collection
    /// link, and the seller's holding, this creates the listing
    /// record and moves the seller's entire holding of the asset into
    /// the new escrow vault — both effects together, or neither.
    pub fn listing(
        &mut self,
        maker: u64,
        name: Vec<u8>,
        maker_mint: u64,
        collection_mint: u64,
        meta: NftMetadata,
        price: u64,
    ) -> (r: Result<(), MarketplaceError>)
        requires
            old(self).wf(),
        ensures
            final(self).wf(),
            r == Err::<(), MarketplaceError>(MarketplaceError::NotFound) <==> !old(
                self).has_marketplace(name@),
            r == Err::<(), MarketplaceError>(MarketplaceError::AlreadyExists) <==> old(
                self).has_marketplace(name@) && old(self).has_listing(name@, maker_mint),
            r == Err::<(), MarketplaceError>(MarketplaceError::UnverifiedCollection) <==> old(
                self).has_marketplace(name@) && !old(self).has_listing(name@, maker_mint)
                && !collection_ok(meta, collection_mint),
            r == Err::<(), MarketplaceError>(MarketplaceError::InsufficientFunds) <==> old(
                self).has_marketplace(name@) && !old(self).has_listing(name@, maker_mint)
                && collection_ok(meta, collection_mint) && old(self).token_amount(maker, maker_mint)
                == 0,
            r is Err ==> *final(self) == *old(self),
            r == Ok::<(), MarketplaceError>(()) <==> old(self).has_marketplace(name@) && !old(
                self).has_listing(name@, maker_mint) && collection_ok(meta, collection_mint)
                && old(self).token_amount(maker, maker_mint) >= 1,
            r is Ok ==> list_transition(*old(self), *final(self), maker, name@, maker_mint, price),
    {
        let mi = match self.find_marketplace(&name) {
            None => {
                return Err(MarketplaceError::NotFound);
            },
            Some(i) => i,
        };
        let derived = bump(TAG_MARKETPLACE, &name);
        if self.marketplaces[mi].marketplace.bump != derived {
            // Unreachable on a well-formed ledger: every stored nonce
            // is the derived one.
            proof {
                assert(self.marketplaces@[mi as int].marketplace.wf());
            }
            return Err(MarketplaceError::AddressMismatch);
        }
        // The derived (marketplace, asset) address must be free: an
        // occupied address rejects a double-listing outright, before
        // anything else about the caller is consulted.
        if self.find_listing(&name, maker_mint).is_some() {
            return Err(MarketplaceError::AlreadyExists);
        }
        if !check_collection(&meta, collection_mint) {
            return Err(MarketplaceError::UnverifiedCollection);
        }
        let balance = self.balance_of(maker, maker_mint);
        if balance == 0 {
            return Err(MarketplaceError::InsufficientFunds);
        }
        let ctx = List { maker, maker_mint, name: clone_bytes(&name) };
        let bumps = ListBumps { listing: listing_bump(&name, maker_mint) };
        let l = ctx.create_listing(price, &bumps);
        let ghost pre = *self;
        let deposited = ctx.deposit_nft(self);
        let entry = ListingEntry { marketplace_name: name, listing: l, vault_amount: deposited };
        proof {
            lemma_listing_push(self.listings@, entry);
        }
        let ghost mid = *self;
        self.listings.push(entry);
        proof {
            assert forall|o: u64, m: u64| #![trigger self.token_amount(o, m)]
                self.token_amount(o, m) == (if o == maker && m == maker_mint {
                    0u64
                } else {
                    pre.token_amount(o, m)
                }) by {
                assert(mid.token_amount(o, m) == (if o == maker && m == maker_mint {
                    0u64
                } else {
                    pre.token_amount(o, m)
                }));
            }
            assert forall|i: int| 0 <= i < self.listings@.len() implies {
                let e = #[trigger] self.listings@[i];
                &&& e.marketplace_name@.len() <= 32
                &&& has_marketplace_in(self.marketplaces@, e.marketplace_name@)
                &&& e.listing.bump == listing_bump_spec(e.marketplace_name@, e.listing.maker_mint)
                &&& e.vault_amount >= 1
            } by {
                if i < mid.listings@.len() {
                    assert(self.listings@[i] == mid.listings@[i]);
                } else {
                    assert(self.listings@[i] == entry);
                    assert(self.marketplaces@[mi as int].marketplace.wf());
                    assert(has_marketplace_in(self.marketplaces@, entry.marketplace_name@)) by {
                        lemma_marketplace_at(self.marketplaces@, mi as int);
                    }
                }
            }
        }
        Ok(())
    }
}

impl Ledger {
    /// Takes an unsold asset off the market: only the original seller
    /// may do this.  The vault's entire balance returns to the
    /// seller's holding account, then the listing and its vault are
    /// removed, freeing the derived address for a future listing of
    /// the same asset.
    pub fn delisting(&mut self, name: &Vec<u8>, maker_mint: u64, caller: u64) -> (r: Result<
        (),
        MarketplaceError,
    >)
        requires
            old(self).wf(),
            old(self).has_listing(name@, maker_mint) && caller == old(self).listing_at(
                name@,
                maker_mint,
            ).listing.maker ==> old(self).token_amount(
                old(self).listing_at(name@, maker_mint).listing.maker,
                maker_mint,
            ) + old(self).listing_at(name@, maker_mint).vault_amount <= u64::MAX,
        ensures
            final(self).wf(),
            r == Err::<(), MarketplaceError>(MarketplaceError::NotFound) <==> !old(
                self).has_listing(name@, maker_mint),
            r == Err::<(), MarketplaceError>(MarketplaceError::Unauthorized) <==> old(
                self).has_listing(name@, maker_mint) && caller != old(self).listing_at(
                name@, maker_mint).listing.maker,
            r is Err ==> *final(self) == *old(self),
            r == Ok::<(), MarketplaceError>(()) <==> old(self).has_listing(name@, maker_mint)
                && caller == old(self).listing_at(name@, maker_mint).listing.maker,
            r is Ok ==> delist_transition(*old(self), *final(self), name@, maker_mint),
    {
        let li = match self.find_listing(name, maker_mint) {
            None => {
                return Err(MarketplaceError::NotFound);
            },
            Some(i) => i,
        };
        proof {
            lemma_listing_at(self.listings@, li as int);
        }
        let seller = self.listings[li].listing.maker;
        if caller != seller {
            return Err(MarketplaceError::Unauthorized);
        }
        let vault = self.listings[li].vault_amount;
        let ghost pre = *self;
        let cur = self.balance_of(seller, maker_mint);
        self.set_token_amount(seller, maker_mint, cur + vault);
        proof {
            lemma_listing_remove(self.listings@, li as int);
        }
        let ghost mid = *self;
        let _removed = self.listings.remove(li);
        proof {
            assert forall|o: u64, m: u64| #![trigger self.token_amount(o, m)]
                self.token_amount(o, m) == (if o == seller && m == maker_mint {
                    pre.token_amount(o, m) + vault
                } else {
                    pre.token_amount(o, m) as int
                }) by {
                assert(mid.token_amount(o, m) == (if o == seller && m == maker_mint {
                    (cur + vault) as u64
                } else {
                    pre.token_amount(o, m)
                }));
            }
            mid.listings@.remove_ensures(li as int);
            assert forall|i: int| 0 <= i < self.listings@.len() implies {
                let e = #[trigger] self.listings@[i];
                &&& e.marketplace_name@.len() <= 32
                &&& has_marketplace_in(self.marketplaces@, e.marketplace_name@)
                &&& e.listing.bump == listing_bump_spec(e.marketplace_name@, e.listing.maker_mint)
                &&& e.vault_amount >= 1
            } by {
                let i0: int = if i < li as int {
                    i
                } else {
                    i + 1
                };
                assert(self.listings@[i] == mid.listings@[i0]);
                assert(mid.listings@[i0] == pre.listings@[i0]);
            }
        }
        Ok(())
    }
}

impl Ledger {
    /// Buys a listed asset.  One atomic transaction, in fail-closed
    /// order: the buyer's payment is split into the platform fee (to
    /// the marketplace's treasury) and the seller's proceeds; only
    /// then does the vault's entire balance move to the buyer's
    /// holding account; last, the listing and its vault are removed
    /// for good.
    ///
    /// The fee is `price * fee_bps / 10000`, truncating.  A fee rate
    /// above 10000 — accepted by `initialize`, which places no bound
    /// on it — would make the fee exceed the price, so such a
    /// purchase fails closed with `InsufficientFunds`.
    pub fn purchase(&mut self, name: &Vec<u8>, maker_mint: u64, buyer: u64) -> (r: Result<
        (),
        MarketplaceError,
    >)
        requires
            old(self).wf(),
            ({
                let e = old(self).listing_at(name@, maker_mint);
                let fee = fee_amount_spec(
                    e.listing.price,
                    old(self).marketplace_at(name@).marketplace.fee,
                );
                old(self).has_listing(name@, maker_mint) && fee <= e.listing.price && old(
                    self,
                ).lamports_of(buyer) >= e.listing.price ==> {
                    &&& old(self).treasury_of(name@) + fee <= u64::MAX
                    &&& old(self).lamports_of(e.listing.maker) + e.listing.price <= u64::MAX
                    &&& old(self).token_amount(buyer, maker_mint) + e.vault_amount <= u64::MAX
                }
            }),
        ensures
            final(self).wf(),
            r == Err::<(), MarketplaceError>(MarketplaceError::NotFound) <==> !old(
                self).has_listing(name@, maker_mint),
            r == Err::<(), MarketplaceError>(MarketplaceError::InsufficientFunds) <==> old(
                self).has_listing(name@, maker_mint) && ({
                let e = old(self).listing_at(name@, maker_mint);
                let fee = fee_amount_spec(
                    e.listing.price,
                    old(self).marketplace_at(name@).marketplace.fee,
                );
                fee > e.listing.price || old(self).lamports_of(buyer) < e.listing.price
            }),
            r is Err ==> *final(self) == *old(self),
            r == Ok::<(), MarketplaceError>(()) <==> old(self).has_listing(name@, maker_mint)
                && ({
                let e = old(self).listing_at(name@, maker_mint);
                let fee = fee_amount_spec(
                    e.listing.price,
                    old(self).marketplace_at(name@).marketplace.fee,
                );
                fee <= e.listing.price && old(self).lamports_of(buyer) >= e.listing.price
            }),
            r is Ok ==> purchase_transition(*old(self), *final(self), name@, maker_mint, buyer),
    {
        let li = match self.find_listing(name, maker_mint) {
            None => {
                return Err(MarketplaceError::NotFound);
            },
            Some(i) => i,
        };
        proof {
            lemma_listing_at(self.listings@, li as int);
        }
        let seller = self.listings[li].listing.maker;
        let price = self.listings[li].listing.price;
        let vault = self.listings[li].vault_amount;
        let mi = match self.find_marketplace(name) {
            None => {
                // Unreachable on a well-formed ledger: every listing
                // sits on an existing marketplace.
                proof {
                    assert(has_marketplace_in(
                        self.marketplaces@,
                        self.listings@[li as int].marketplace_name@,
                    ));
                }
                return Err(MarketplaceError::NotFound);
            },
            Some(i) => i,
        };
        proof {
            lemma_marketplace_at(self.marketplaces@, mi as int);
        }
        let fee_bps = self.marketplaces[mi].marketplace.fee;
        let treasury = self.marketplaces[mi].treasury;
        proof {
            vstd::arithmetic::mul::lemma_mul_upper_bound(
                price as int,
                u64::MAX as int,
                fee_bps as int,
                u16::MAX as int,
            );
        }
        let fee128: u128 = (price as u128) * (fee_bps as u128) / (BPS_DENOMINATOR as u128);
        if fee128 > price as u128 {
            return Err(MarketplaceError::InsufficientFunds);
        }
        let fee: u64 = fee128 as u64;
        assert(fee == fee_amount_spec(price, fee_bps));
        let bl = self.wallet_balance(buyer);
        if bl < price {
            return Err(MarketplaceError::InsufficientFunds);
        }
        let ghost pre = *self;
        // Send value: debit the full price, credit the proceeds and
        // the fee.
        self.set_lamports(buyer, bl - price);
        let ghost s1 = *self;
        let sl = self.wallet_balance(seller);
        proof {
            if seller != buyer {
                assert(sl == pre.lamports_of(seller));
            }
        }
        self.set_lamports(seller, sl + (price - fee));
        let ghost s2 = *self;
        let ghost mseq = self.marketplaces@;
        self.set_treasury(mi, treasury + fee);
        let ghost s3 = *self;
        let ghost ne = (MarketplaceEntry {
            marketplace: mseq[mi as int].marketplace,
            treasury: (treasury + fee) as u64,
        });
        proof {
            lemma_marketplace_update(mseq, mi as int, ne);
        }
        // Send asset: the vault's entire balance to the buyer.
        let cur = self.balance_of(buyer, maker_mint);
        self.set_token_amount(buyer, maker_mint, cur + vault);
        let ghost s4 = *self;
        // Close vault and listing.
        proof {
            lemma_listing_remove(self.listings@, li as int);
        }
        self.listings.remove(li);
        proof {
            assert forall|o: u64| #![trigger self.lamports_of(o)]
                self.lamports_of(o) == (if o == buyer && o == seller {
                    pre.lamports_of(o) - fee
                } else if o == buyer {
                    pre.lamports_of(o) - price
                } else if o == seller {
                    pre.lamports_of(o) + price - fee
                } else {
                    pre.lamports_of(o) as int
                }) by {
                assert(s1.lamports_of(o) == (if o == buyer {
                    (bl - price) as u64
                } else {
                    pre.lamports_of(o)
                }));
                assert(s2.lamports_of(o) == (if o == seller {
                    (sl + (price - fee)) as u64
                } else {
                    s1.lamports_of(o)
                }));
                assert(self.wallets == s2.wallets);
            }
            assert forall|o: u64, m: u64| #![trigger self.token_amount(o, m)]
                self.token_amount(o, m) == (if o == buyer && m == maker_mint {
                    pre.token_amount(o, m) + vault
                } else {
                    pre.token_amount(o, m) as int
                }) by {
                assert(s3.token_amount(o, m) == pre.token_amount(o, m));
                assert(s4.token_amount(o, m) == (if o == buyer && m == maker_mint {
                    (cur + vault) as u64
                } else {
                    s3.token_amount(o, m)
                }));
                assert(self.tokens == s4.tokens);
            }
            assert(self.marketplaces@ == mseq.update(mi as int, ne));
            assert forall|n: Seq<u8>| #![trigger self.has_marketplace(n)]
                self.has_marketplace(n) == pre.has_marketplace(n) by {
                assert(has_marketplace_in(mseq.update(mi as int, ne), n) == has_marketplace_in(
                    mseq, n));
            }
            assert forall|n: Seq<u8>| #![trigger self.marketplace_at(n)]
                pre.has_marketplace(n) implies self.marketplace_at(n).marketplace
                == pre.marketplace_at(n).marketplace by {
                assert(marketplace_at_in(mseq.update(mi as int, ne), n) == (
                if n == ne.marketplace.name@ {
                    ne
                } else {
                    marketplace_at_in(mseq, n)
                }));
            }
            assert forall|n: Seq<u8>| #![trigger self.treasury_of(n)]
                self.treasury_of(n) == (if n == name@ {
                    pre.treasury_of(n) + fee
                } else {
                    pre.treasury_of(n) as int
                }) by {
                assert(has_marketplace_in(mseq.update(mi as int, ne), n) == has_marketplace_in(
                    mseq, n));
                if pre.has_marketplace(n) {
                    assert(marketplace_at_in(mseq.update(mi as int, ne), n) == (
                    if n == ne.marketplace.name@ {
                        ne
                    } else {
                        marketplace_at_in(mseq, n)
                    }));
                }
            }
            s4.listings@.remove_ensures(li as int);
            assert forall|i: int| 0 <= i < self.listings@.len() implies {
                let e = #[trigger] self.listings@[i];
                &&& e.marketplace_name@.len() <= 32
                &&& has_marketplace_in(self.marketplaces@, e.marketplace_name@)
                &&& e.listing.bump == listing_bump_spec(e.marketplace_name@, e.listing.maker_mint)
                &&& e.vault_amount >= 1
            } by {
                let i0: int = if i < li as int {
                    i
                } else {
                    i + 1
                };
                assert(self.listings@[i] == s4.listings@[i0]);
                assert(s4.listings@[i0] == pre.listings@[i0]);
                assert(has_marketplace_in(pre.marketplaces@, pre.listings@[i0].marketplace_name@));
                assert(has_marketplace_in(mseq.update(mi as int, ne),
                    pre.listings@[i0].marketplace_name@) == has_marketplace_in(mseq,
                    pre.listings@[i0].marketplace_name@));
            }
            assert forall|i: int| 0 <= i < self.marketplaces@.len() implies (
            #[trigger] self.marketplaces@[i]).marketplace.wf() by {
                if i == mi as int {
                    assert(self.marketplaces@[i] == ne);
                    assert(mseq[mi as int].marketplace.wf());
                } else {
                    assert(self.marketplaces@[i] == mseq[i]);
                    assert(pre.marketplaces@[i].marketplace.wf());
                }
            }
        }
        Ok(())
    }
}

impl List {
    /// Moves the seller's entire holding of the asset out of their
    /// account and into escrow, and reports the amount moved.  For a
    /// unique asset this is one unit, but the deposit is deliberately
    /// the whole balance: a holder of several units escrows them all.
    pub fn deposit_nft(&self, ledger: &mut Ledger) -> (amount: u64)
        requires
            tokens_unique(old(ledger).tokens@),
        ensures
            amount == old(ledger).token_amount(self.maker, self.maker_mint),
            tokens_unique(final(ledger).tokens@),
            forall|o: u64, m: u64| #![trigger final(ledger).token_amount(o, m)]
                final(ledger).token_amount(o, m) == (if o == self.maker && m == self.maker_mint {
                    0u64
                } else {
                    old(ledger).token_amount(o, m)
                }),
            final(ledger).marketplaces == old(ledger).marketplaces,
            final(ledger).listings == old(ledger).listings,
            final(ledger).wallets == old(ledger).wallets,
    {
        let amount = ledger.balance_of(self.maker, self.maker_mint);
        ledger.set_token_amount(self.maker, self.maker_mint, 0);
        amount
    }
}

} // verus!
