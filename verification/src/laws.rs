//! The system's laws, proved once and for all over the ledger model
//! and the transitions stated in [`crate::ledger`].
//!
//! Atomicity needs no lemma of its own: every entry point's contract
//! already ends with `r is Err ==> *final(self) == *old(self)` — a
//! failed transaction leaves no observable state behind.

use vstd::prelude::*;

use crate::addr::{marketplace_address, listing_address};
use crate::ledger::{
    Ledger, initialize_transition, list_transition, delist_transition, purchase_transition,
    listing_index_in, fee_amount_spec, BPS_DENOMINATOR,
};
use vstd::arithmetic::div_mod::{lemma_div_is_ordered, lemma_div_multiples_vanish};
use vstd::arithmetic::mul::lemma_mul_inequality;

verus! {

/// Uniqueness: on a well-formed ledger, at most one marketplace lives
/// at the address derived from any name — two entries whose names
/// derive the same address are the same entry.
pub proof fn lemma_marketplace_uniqueness(l: Ledger, i: int, j: int)
    requires
        l.wf(),
        0 <= i < l.marketplaces@.len(),
        0 <= j < l.marketplaces@.len(),
        marketplace_address(l.marketplaces@[i].marketplace.name@) == marketplace_address(
            l.marketplaces@[j].marketplace.name@,
        ),
    ensures
        i == j,
{
    if i != j {
        assert(l.marketplaces@[i].marketplace.name@ != l.marketplaces@[j].marketplace.name@);
    }
}

/// Uniqueness over time: once a marketplace named `name` has been
/// created, that name is occupied, so by `initialize`'s contract
/// every later `initialize` with the same name fails with
/// `AlreadyExists` and changes nothing.
pub proof fn lemma_marketplace_occupied(l0: Ledger, l1: Ledger, admin: u64, name: Seq<u8>, fee: u16)
    requires
        initialize_transition(l0, l1, admin, name, fee),
    ensures
        l1.has_marketplace(name),
{
}

/// Listing exclusivity: on a well-formed ledger, at most one listing
/// lives at the address derived from any (marketplace, asset) pair —
/// two entries whose keys derive the same address are the same entry.
pub proof fn lemma_listing_exclusivity(l: Ledger, i: int, j: int)
    requires
        l.wf(),
        0 <= i < l.listings@.len(),
        0 <= j < l.listings@.len(),
        listing_address(l.listings@[i].marketplace_name@, l.listings@[i].listing.maker_mint)
            == listing_address(l.listings@[j].marketplace_name@, l.listings@[j].listing.maker_mint),
    ensures
        i == j,
{
    if i != j {
        assert(!(l.listings@[i].marketplace_name@ == l.listings@[j].marketplace_name@
            && l.listings@[i].listing.maker_mint == l.listings@[j].listing.maker_mint));
    }
}

/// Listing exclusivity over time: once an asset is listed, its
/// (marketplace, mint) address is occupied, so by `listing`'s
/// contract every further `list` of the same asset there fails with
/// `AlreadyExists` and changes nothing.
pub proof fn lemma_listing_occupied(
    l0: Ledger,
    l1: Ledger,
    maker: u64,
    name: Seq<u8>,
    mint: u64,
    price: u64,
)
    requires
        list_transition(l0, l1, maker, name, mint, price),
    ensures
        l1.has_listing(name, mint),
{
}

/// Custody, as an invariant: on a well-formed ledger every listing's
/// paired vault holds a positive balance, and sits on an existing
/// marketplace.  The vault is paired structurally with its listing,
/// so where no listing exists, no vault exists either.
pub proof fn lemma_custody(l: Ledger, name: Seq<u8>, mint: u64)
    requires
        l.wf(),
        l.has_listing(name, mint),
    ensures
        l.listing_at(name, mint).vault_amount >= 1,
        l.has_marketplace(name),
{
    let i = listing_index_in(l.listings@, name, mint);
    assert(0 <= i < l.listings@.len() && l.listings@[i].marketplace_name@ == name
        && l.listings@[i].listing.maker_mint == mint);
    assert(l.listings@[i].vault_amount >= 1);
}

/// Custody, at creation: a successful `list` leaves the vault holding
/// exactly the balance that left the seller's holding account.
pub proof fn lemma_custody_established(
    l0: Ledger,
    l1: Ledger,
    maker: u64,
    name: Seq<u8>,
    mint: u64,
    price: u64,
)
    requires
        list_transition(l0, l1, maker, name, mint, price),
    ensures
        l1.listing_at(name, mint).vault_amount == l0.token_amount(maker, mint),
        l1.listing_at(name, mint).vault_amount >= 1,
        l1.token_amount(maker, mint) == 0,
{
    assert(l1.token_amount(maker, mint) == 0);
}

/// Custody, preserved: while a listing stands, no operation on any
/// other (marketplace, asset) pair — nor the creation of a fresh
/// marketplace — touches it or its vault.  Only its own `delist` or
/// `purchase` releases the escrow, and each removes the pair whole.
pub proof fn lemma_custody_preserved(
    pre: Ledger,
    post: Ledger,
    name: Seq<u8>,
    mint: u64,
    other_name: Seq<u8>,
    other_mint: u64,
    actor: u64,
    price: u64,
    fee: u16,
)
    requires
        pre.has_listing(name, mint),
        !(other_name == name && other_mint == mint),
        list_transition(pre, post, actor, other_name, other_mint, price) || delist_transition(
            pre,
            post,
            other_name,
            other_mint,
        ) || purchase_transition(pre, post, other_name, other_mint, actor)
            || initialize_transition(pre, post, actor, other_name, fee),
    ensures
        post.has_listing(name, mint),
        post.listing_at(name, mint) == pre.listing_at(name, mint),
{
}

/// Fee correctness: for a price `P` and a fee rate `F` within the
/// full-price bound, the treasury's share `⌊P·F/10000⌋` never exceeds
/// `P`, and together with the seller's proceeds `P − ⌊P·F/10000⌋` it
/// sums exactly to `P`.
pub proof fn lemma_fee_split(price: u64, fee_bps: u16)
    requires
        fee_bps <= BPS_DENOMINATOR,
    ensures
        0 <= fee_amount_spec(price, fee_bps) <= price,
        fee_amount_spec(price, fee_bps) + (price - fee_amount_spec(price, fee_bps)) == price,
{
    let d = BPS_DENOMINATOR as int;
    lemma_mul_inequality(fee_bps as int, d, price as int);
    assert(price * fee_bps == fee_bps * price) by (nonlinear_arith);
    assert(price * d == d * price) by (nonlinear_arith);
    lemma_div_is_ordered(0, price * fee_bps, d);
    lemma_div_is_ordered(price * fee_bps, price * d, d);
    lemma_div_multiples_vanish(price as int, d);
}

/// Fee correctness at purchase: when a purchase succeeds and the
/// buyer is not the seller, the treasury gains exactly
/// `⌊P·F/10000⌋`, the seller gains exactly `P − ⌊P·F/10000⌋`, the
/// two gains partition the price — no value is created or destroyed
/// by the split — and the buyer pays exactly `P`.
pub proof fn lemma_purchase_split(pre: Ledger, post: Ledger, name: Seq<u8>, mint: u64, buyer: u64)
    requires
        purchase_transition(pre, post, name, mint, buyer),
        buyer != pre.listing_at(name, mint).listing.maker,
    ensures
        ({
            let e = pre.listing_at(name, mint);
            let fee = fee_amount_spec(e.listing.price, pre.marketplace_at(name).marketplace.fee);
            &&& post.treasury_of(name) - pre.treasury_of(name) == fee
            &&& post.lamports_of(e.listing.maker) - pre.lamports_of(e.listing.maker)
                == e.listing.price - fee
            &&& (post.treasury_of(name) - pre.treasury_of(name)) + (post.lamports_of(
                e.listing.maker,
            ) - pre.lamports_of(e.listing.maker)) == e.listing.price
            &&& post.lamports_of(buyer) == pre.lamports_of(buyer) - e.listing.price
        }),
{
}

/// The one case the split above leaves out: a seller buying their
/// own listing.  The proceeds return to the wallet the price left,
/// so the two flows net to a loss of exactly the fee — the treasury
/// still gains it, and no value appears or vanishes.
pub proof fn lemma_purchase_by_seller(
    pre: Ledger,
    post: Ledger,
    name: Seq<u8>,
    mint: u64,
    buyer: u64,
)
    requires
        purchase_transition(pre, post, name, mint, buyer),
        buyer == pre.listing_at(name, mint).listing.maker,
    ensures
        ({
            let e = pre.listing_at(name, mint);
            let fee = fee_amount_spec(e.listing.price, pre.marketplace_at(name).marketplace.fee);
            &&& post.treasury_of(name) - pre.treasury_of(name) == fee
            &&& post.lamports_of(buyer) == pre.lamports_of(buyer) - fee
        }),
{
}

/// Round trip: a successful `list` followed by a successful `delist`
/// of the same asset restores the seller's original holding balance,
/// leaves no residual listing or vault, and returns every other
/// account to exactly its prior state.
pub proof fn lemma_round_trip(
    l0: Ledger,
    l1: Ledger,
    l2: Ledger,
    maker: u64,
    name: Seq<u8>,
    mint: u64,
    price: u64,
)
    requires
        list_transition(l0, l1, maker, name, mint, price),
        delist_transition(l1, l2, name, mint),
    ensures
        l2.token_amount(maker, mint) == l0.token_amount(maker, mint),
        !l2.has_listing(name, mint),
        forall|o: u64, m: u64| #![trigger l2.token_amount(o, m)]
            l2.token_amount(o, m) == l0.token_amount(o, m),
        forall|n: Seq<u8>, m: u64| #![trigger l2.has_listing(n, m)]
            l2.has_listing(n, m) == l0.has_listing(n, m),
        l2.marketplaces == l0.marketplaces,
        l2.wallets == l0.wallets,
{
    let e = l1.listing_at(name, mint);
    assert(e.listing.maker == maker);
    assert(e.vault_amount == l0.token_amount(maker, mint));
    assert(l1.token_amount(maker, mint) == 0);
    assert(l2.token_amount(maker, mint) == l1.token_amount(maker, mint) + e.vault_amount);
    assert forall|o: u64, m: u64| #![trigger l2.token_amount(o, m)]
        l2.token_amount(o, m) == l0.token_amount(o, m) by {
        assert(l1.token_amount(o, m) == (if o == maker && m == mint {
            0u64
        } else {
            l0.token_amount(o, m)
        }));
        assert(l2.token_amount(o, m) == (if o == e.listing.maker && m == mint {
            l1.token_amount(o, m) + e.vault_amount
        } else {
            l1.token_amount(o, m) as int
        }));
    }
    assert forall|n: Seq<u8>, m: u64| #![trigger l2.has_listing(n, m)]
        l2.has_listing(n, m) == l0.has_listing(n, m) by {
        if !(n == name && m == mint) {
            assert(l1.has_listing(n, m) == l0.has_listing(n, m));
            assert(l2.has_listing(n, m) == l1.has_listing(n, m));
        } else {
            assert(!l0.has_listing(name, mint));
            assert(!l2.has_listing(name, mint));
        }
    }
}

} // verus!
