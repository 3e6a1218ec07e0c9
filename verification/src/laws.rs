//! The library's laws: properties that relate the marketplace operations,
//! stated over the same views and spec functions their contracts use.

use vstd::prelude::*;
use crate::idgen::LISTING_KIND;
use crate::market::{active_listings, Marketplace};
use crate::model::{ListingView, TransactionStatus, TransactionView, TransferOutcome};
use crate::store::{find_listing, find_transaction, lemma_find_listing_at};

verus! {

/// At most one pending transaction references a given listing at any
/// instant: two distinct pending ledger entries never name the same listing.
/// This holds in every state that satisfies the invariant, which every
/// operation preserves.
pub proof fn lemma_pending_mutual_exclusion(m: Marketplace, i: int, j: int)
    requires
        m.inv(),
        0 <= i < m.transactions@.len(),
        0 <= j < m.transactions@.len(),
        i != j,
        m.transactions@[i].status == TransactionStatus::Pending,
        m.transactions@[j].status == TransactionStatus::Pending,
    ensures
        m.transactions@[i].listing_id != m.transactions@[j].listing_id,
{
}

/// After a purchase resolves, the listing it named is inactive when the
/// outcome completed the sale, and active again when the transfer was
/// rejected or failed in transport. The premises are what `buy_resolve`
/// ensures of the states before and after the call.
pub proof fn lemma_buy_resolution_listing_state(
    pre: Marketplace,
    post: Marketplace,
    transaction_id: u64,
    outcome: TransferOutcome,
)
    requires
        pre.inv(),
        (match find_transaction(pre.transactions@, transaction_id) {
            Some(t) => t.status == TransactionStatus::Pending,
            None => false,
        }),
        (outcome is Success) ==> post.listings@ == pre.listings@,
        !(outcome is Success) ==> post.listings@.len() == pre.listings@.len() && (forall|k: int|
            0 <= k < pre.listings@.len() ==> #[trigger] post.listings@[k] == (if pre.listings@[k].id
                == find_transaction(pre.transactions@, transaction_id).unwrap().listing_id {
                (ListingView { is_active: true, ..pre.listings@[k] })
            } else {
                pre.listings@[k]
            })),
    ensures
        (match find_listing(
            post.listings@,
            find_transaction(pre.transactions@, transaction_id).unwrap().listing_id,
        ) {
            Some(l) => l.is_active == !(outcome is Success),
            None => false,
        }),
{
    let t = find_transaction(pre.transactions@, transaction_id).unwrap();
    crate::store::lemma_find_transaction_spec(pre.transactions@, transaction_id);
    let w = choose|l: int|
        0 <= l < pre.listings@.len() && (#[trigger] pre.listings@[l]).id == t.listing_id
            && !pre.listings@[l].is_active;
    assert(forall|k: int|
        0 <= k < w ==> (#[trigger] pre.listings@[k]).id != t.listing_id) by {
        assert(forall|k: int| 0 <= k < w ==> (#[trigger] pre.listings@[k]).id < pre.listings@[w].id);
    }
    if outcome is Success {
        lemma_find_listing_at(post.listings@, t.listing_id, w);
    } else {
        assert(forall|k: int|
            0 <= k < post.listings@.len() ==> (#[trigger] post.listings@[k]).id
                == pre.listings@[k].id);
        lemma_find_listing_at(post.listings@, t.listing_id, w);
        assert(post.listings@[w] == (ListingView { is_active: true, ..pre.listings@[w] }));
    }
}

/// Consecutive listing creations issue strictly increasing ids with no gap:
/// the id of the second is one more than the id of the first. The premises
/// are what `create_listing` ensures of the id counter across two calls.
pub proof fn lemma_listing_ids_gapless(
    pre: Marketplace,
    mid: Marketplace,
    post: Marketplace,
    id1: u64,
    id2: u64,
)
    requires
        id1 == pre.ids.spec_last(LISTING_KIND) + 1,
        mid.ids.spec_last(LISTING_KIND) == id1,
        id2 == mid.ids.spec_last(LISTING_KIND) + 1,
        post.ids.spec_last(LISTING_KIND) == id2,
    ensures
        id2 == id1 + 1,
        id1 < id2,
{
}

/// A point read is a function of the state alone: two `get_listing` results
/// for the same state and id, each as the contract pins it, are the same
/// value, so repeated reads with no intervening write agree.
pub proof fn lemma_get_listing_deterministic(
    m: Marketplace,
    listing_id: u64,
    r1: Option<ListingView>,
    r2: Option<ListingView>,
)
    requires
        (match r1 {
            Some(l) => find_listing(m.listings@, listing_id) == Some(l),
            None => find_listing(m.listings@, listing_id) is None,
        }),
        (match r2 {
            Some(l) => find_listing(m.listings@, listing_id) == Some(l),
            None => find_listing(m.listings@, listing_id) is None,
        }),
    ensures
        r1 == r2,
{
}

/// The scan of active listings is a function of the state alone: two
/// results, each as the contract pins it, are the same sequence, so
/// repeated scans with no intervening write agree.
pub proof fn lemma_active_listings_deterministic(
    m: Marketplace,
    r1: Seq<ListingView>,
    r2: Seq<ListingView>,
)
    requires
        r1 == active_listings(m.listings@),
        r2 == active_listings(m.listings@),
    ensures
        r1 == r2,
{
}

} // verus!
