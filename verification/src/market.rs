//! The marketplace state and its operations, including the purchase saga.
//!
//! The saga is a two-phase task. `buy_prepare` runs the validation and
//! reservation steps atomically and returns the pending transaction together
//! with the registry address to call. The caller then performs the remote
//! ownership transfer — the one suspension point, during which any other
//! operation may run against this state — and hands the outcome to
//! `buy_resolve`, which advances the transaction to its terminal status and,
//! on failure, compensates by re-reading the listing and reactivating it.

use vstd::prelude::*;
use crate::identity::Identity;
use crate::idgen::{IdGenerator, LISTING_KIND, TRANSACTION_KIND};
use crate::model::{
    Listing, ListingInput, ListingView, MarketError, PendingPurchase, Transaction,
    TransactionStatus, TransactionView, TransferOutcome,
};
use crate::store::{
    find_listing, find_transaction, lemma_find_listing_at, lemma_find_listing_none,
    lemma_find_transaction_at, lemma_find_transaction_none, listing_ids_increasing,
    transaction_ids_increasing, ListingStore, TransactionLedger,
};

verus! {

/// At most one pending transaction references any given listing: the mutual
/// exclusion that rules out a double sale.
pub open spec fn pending_mutex(txs: Seq<TransactionView>) -> bool {
    forall|i: int, j: int|
        0 <= i < txs.len() && 0 <= j < txs.len() && i != j
            && (#[trigger] txs[i]).status == TransactionStatus::Pending
            && (#[trigger] txs[j]).status == TransactionStatus::Pending
            ==> txs[i].listing_id != txs[j].listing_id
}

/// Every pending transaction references a stored listing that is inactive:
/// a listing is off the market for as long as a purchase of it is in flight.
pub open spec fn pending_backed(ls: Seq<ListingView>, txs: Seq<TransactionView>) -> bool {
    forall|t: int|
        0 <= t < txs.len() && (#[trigger] txs[t]).status == TransactionStatus::Pending
            ==> exists|l: int|
                0 <= l < ls.len() && (#[trigger] ls[l]).id == txs[t].listing_id && !ls[l].is_active
}

/// The whole marketplace: the two stores, the id generator, and the
/// configured address of the registry service.
pub struct Marketplace {
    pub listings: ListingStore,
    pub transactions: TransactionLedger,
    pub ids: IdGenerator,
    pub registry_address: Option<String>,
}

impl Marketplace {
    /// The configured registry address, as a character sequence.
    pub open spec fn spec_registry_address(self) -> Option<Seq<char>> {
        match self.registry_address {
            Some(a) => Some(a@),
            None => None,
        }
    }

    /// Every stored id was issued by the generator, so the next issued id is
    /// fresh.
    pub open spec fn counters_cover(self) -> bool {
        &&& forall|k: int|
            0 <= k < self.listings@.len() ==> (#[trigger] self.listings@[k]).id
                <= self.ids.spec_last(LISTING_KIND)
        &&& forall|k: int|
            0 <= k < self.transactions@.len() ==> (#[trigger] self.transactions@[k]).id
                <= self.ids.spec_last(TRANSACTION_KIND)
    }

    /// The state invariant: ids are strictly increasing in each store and
    /// dominated by the counters, at most one pending transaction references
    /// a listing, and a listing with a pending transaction is inactive.
    pub open spec fn inv(self) -> bool {
        &&& listing_ids_increasing(self.listings@)
        &&& transaction_ids_increasing(self.transactions@)
        &&& self.counters_cover()
        &&& pending_mutex(self.transactions@)
        &&& pending_backed(self.listings@, self.transactions@)
    }

    /// An empty marketplace with no registry address configured.
    pub fn new() -> (r: Marketplace)
        ensures
            r.inv(),
            r.listings@ =~= Seq::<ListingView>::empty(),
            r.transactions@ =~= Seq::<TransactionView>::empty(),
            r.spec_registry_address() is None,
            forall|kind: u8| r.ids.spec_last(kind) == 0,
    {
        Marketplace {
            listings: ListingStore::new(),
            transactions: TransactionLedger::new(),
            ids: IdGenerator::new(),
            registry_address: None,
        }
    }

    /// Point lookup of a listing by id.
    pub fn get_listing(&self, listing_id: u64) -> (r: Option<Listing>)
        ensures
            match r {
                Some(l) => find_listing(self.listings@, listing_id) == Some(l@),
                None => find_listing(self.listings@, listing_id) is None,
            },
    {
        match self.listings.get(listing_id) {
            Some(l) => Some(l.clone()),
            None => None,
        }
    }

    /// Creates an active listing owned by the caller, under a fresh id.
    /// An anonymous caller is rejected with no side effect.
    pub fn create_listing(&mut self, caller: Identity, now: u64, input: ListingInput) -> (r:
        Result<Listing, MarketError>)
        requires
            old(self).inv(),
            old(self).ids.spec_last(LISTING_KIND) < u64::MAX,
        ensures
            final(self).inv(),
            caller.spec_is_anonymous() ==> *final(self) == *old(self) && (r matches Err(
                MarketError::Unauthenticated,
            )),
            !caller.spec_is_anonymous() ==> (r matches Ok(l)
                && l@.id == old(self).ids.spec_last(LISTING_KIND) + 1
                && l@ == (ListingView {
                    id: l@.id,
                    asset_id: input.asset_id,
                    seller: caller@,
                    price: input.price,
                    created_at: now,
                    updated_at: now,
                    is_active: true,
                    title: input.title@,
                    description: input.description@,
                    category: input.category@,
                    tags: crate::model::strings_view(input.tags@),
                })
                && final(self).listings@ == old(self).listings@.push(l@)
                && final(self).transactions@ == old(self).transactions@
                && final(self).spec_registry_address() == old(self).spec_registry_address()
                && final(self).ids.spec_last(LISTING_KIND) == l@.id
                && final(self).ids.spec_last(TRANSACTION_KIND) == old(self).ids.spec_last(
                    TRANSACTION_KIND,
                )),
    {
        if caller.is_anonymous() {
            return Err(MarketError::Unauthenticated);
        }
        let id = self.ids.get_next_listing_id();
        let listing = Listing {
            id,
            asset_id: input.asset_id,
            seller: caller,
            price: input.price,
            created_at: now,
            updated_at: now,
            is_active: true,
            title: input.title,
            description: input.description,
            category: input.category,
            tags: input.tags,
        };
        let returned = listing.clone();
        proof {
            assert(forall|k: int|
                0 <= k < self.listings@.len() ==> (#[trigger] self.listings@[k]).id < listing@.id);
        }
        self.listings.insert_fresh(listing);
        proof {
            let ls0 = old(self).listings@;
            let ls1 = self.listings@;
            assert(ls1 =~= ls0.push(returned@));
            assert(listing_ids_increasing(ls1)) by {
                assert(forall|i: int, j: int|
                    0 <= i < j < ls1.len() ==> ls1[i].id < ls1[j].id) by {
                    assert(forall|i: int| 0 <= i < ls0.len() ==> ls1[i] == ls0[i]);
                }
            }
            assert(pending_backed(ls1, self.transactions@)) by {
                assert forall|t: int|
                    0 <= t < self.transactions@.len() && (#[trigger] self.transactions@[t]).status
                        == TransactionStatus::Pending implies exists|l: int|
                    0 <= l < ls1.len() && (#[trigger] ls1[l]).id
                        == self.transactions@[t].listing_id && !ls1[l].is_active by {
                    let l = choose|l: int|
                        0 <= l < ls0.len() && (#[trigger] ls0[l]).id
                            == self.transactions@[t].listing_id && !ls0[l].is_active;
                    assert(ls1[l] == ls0[l]);
                }
            }
        }
        Ok(returned)
    }

    /// The error that the validation step of a purchase returns, if any, in
    /// the order the checks are made: the listing must exist and be active,
    /// the buyer must be neither the seller nor anonymous, and the registry
    /// address must be configured.
    pub open spec fn prepare_error(self, buyer: Seq<u8>, listing_id: u64) -> Option<MarketError> {
        match find_listing(self.listings@, listing_id) {
            Option::None => Some(MarketError::NotFound),
            Option::Some(l) => if !l.is_active {
                Some(MarketError::StateConflict)
            } else if l.seller == buyer {
                Some(MarketError::Forbidden)
            } else if buyer == crate::identity::anonymous_bytes() {
                Some(MarketError::Unauthenticated)
            } else if self.spec_registry_address() is None {
                Some(MarketError::ConfigurationMissing)
            } else {
                None
            },
        }
    }

    /// The validation and reservation steps of a purchase, run atomically:
    /// on success the listing is deactivated, a pending transaction is
    /// recorded under a fresh id, and both are handed back with the registry
    /// address, for the caller to perform the remote transfer and then call
    /// [`Self::buy_resolve`]. On any validation error nothing is changed.
    pub fn buy_prepare(&mut self, buyer: Identity, now: u64, listing_id: u64) -> (r: Result<
        PendingPurchase,
        MarketError,
    >)
        requires
            old(self).inv(),
            old(self).ids.spec_last(TRANSACTION_KIND) < u64::MAX,
        ensures
            final(self).inv(),
            (match old(self).prepare_error(buyer@, listing_id) {
                Some(e) => (r matches Err(e2) && e2 == e) && *final(self) == *old(self),
                None => (match find_listing(old(self).listings@, listing_id) {
                    Some(l) => r matches Ok(p)
                        && p.transaction@.id == old(self).ids.spec_last(TRANSACTION_KIND) + 1
                        && p.transaction@ == (TransactionView {
                            id: p.transaction@.id,
                            asset_id: l.asset_id,
                            listing_id: listing_id,
                            seller: l.seller,
                            buyer: buyer@,
                            price: l.price,
                            transaction_time: now,
                            status: TransactionStatus::Pending,
                        })
                        && (match old(self).spec_registry_address() {
                            Some(a) => p.registry_address@ == a,
                            None => false,
                        })
                        && final(self).listings@.len() == old(self).listings@.len()
                        && (forall|k: int|
                            0 <= k < old(self).listings@.len()
                                ==> #[trigger] final(self).listings@[k] == (if old(self).listings@[k].id == listing_id {
                                (ListingView {
                                    is_active: false,
                                    updated_at: now,
                                    ..old(self).listings@[k]
                                })
                            } else {
                                old(self).listings@[k]
                            }))
                        && final(self).transactions@ == old(self).transactions@.push(
                            p.transaction@,
                        )
                        && final(self).ids.spec_last(TRANSACTION_KIND) == p.transaction@.id
                        && final(self).ids.spec_last(LISTING_KIND) == old(self).ids.spec_last(
                            LISTING_KIND,
                        )
                        && final(self).spec_registry_address() == old(self).spec_registry_address(),
                    None => false,
                }),
            }),
    {
        let pos = match self.listings.position_of(listing_id) {
            None => {
                proof {
                    lemma_find_listing_none(self.listings@, listing_id);
                }
                return Err(MarketError::NotFound);
            },
            Some(p) => p,
        };
        proof {
            lemma_find_listing_at(self.listings@, listing_id, pos as int);
        }
        if !self.listings.at(pos).is_active {
            return Err(MarketError::StateConflict);
        }
        if self.listings.at(pos).seller.same_as(&buyer) {
            return Err(MarketError::Forbidden);
        }
        if buyer.is_anonymous() {
            return Err(MarketError::Unauthenticated);
        }
        let address = match &self.registry_address {
            Some(a) => a.clone(),
            None => {
                return Err(MarketError::ConfigurationMissing);
            },
        };
        let transaction_id = self.ids.get_next_transaction_id();
        let mut reserved = self.listings.at(pos).clone();
        reserved.is_active = false;
        reserved.updated_at = now;
        self.listings.replace_at(pos, reserved);
        let snapshot = self.listings.at(pos);
        let transaction = Transaction {
            id: transaction_id,
            asset_id: snapshot.asset_id,
            listing_id,
            seller: snapshot.seller.clone(),
            buyer,
            price: snapshot.price,
            transaction_time: now,
            status: TransactionStatus::Pending,
        };
        self.transactions.insert_fresh(transaction.clone());
        proof {
            let ls0 = old(self).listings@;
            let ls1 = self.listings@;
            let txs0 = old(self).transactions@;
            let txs1 = self.transactions@;
            assert(ls1 =~= ls0.update(pos as int, ls1[pos as int]));
            assert(txs1 =~= txs0.push(transaction@));
            assert(listing_ids_increasing(ls1)) by {
                assert(forall|i: int| 0 <= i < ls0.len() ==> (#[trigger] ls1[i]).id == ls0[i].id);
            }
            assert(transaction_ids_increasing(txs1)) by {
                assert(forall|k: int|
                    0 <= k < txs0.len() ==> (#[trigger] txs0[k]).id < transaction@.id);
                assert(forall|i: int| 0 <= i < txs0.len() ==> txs1[i] == txs0[i]);
            }
            assert(pending_mutex(txs1)) by {
                assert forall|i: int, j: int|
                    0 <= i < txs1.len() && 0 <= j < txs1.len() && i != j
                        && (#[trigger] txs1[i]).status == TransactionStatus::Pending
                        && (#[trigger] txs1[j]).status == TransactionStatus::Pending implies
                    txs1[i].listing_id != txs1[j].listing_id by {
                    if i < txs0.len() && j < txs0.len() {
                        assert(txs1[i] == txs0[i] && txs1[j] == txs0[j]);
                    } else {
                        let o = if i < txs0.len() {
                            i
                        } else {
                            j
                        };
                        if o < txs0.len() && txs0[o].status == TransactionStatus::Pending && txs0[o].listing_id == listing_id {
                            let w = choose|l: int|
                                0 <= l < ls0.len() && (#[trigger] ls0[l]).id == txs0[o].listing_id
                                    && !ls0[l].is_active;
                            assert(w == pos as int) by {
                                if w < pos as int {
                                    assert(ls0[w].id < ls0[pos as int].id);
                                } else if w > pos as int {
                                    assert(ls0[pos as int].id < ls0[w].id);
                                }
                            }
                            assert(false);
                        }
                    }
                }
            }
            assert(pending_backed(ls1, txs1)) by {
                assert forall|t: int|
                    0 <= t < txs1.len() && (#[trigger] txs1[t]).status == TransactionStatus::Pending
                        implies exists|l: int|
                    0 <= l < ls1.len() && (#[trigger] ls1[l]).id == txs1[t].listing_id
                        && !ls1[l].is_active by {
                    if t < txs0.len() {
                        assert(txs1[t] == txs0[t]);
                        let w = choose|l: int|
                            0 <= l < ls0.len() && (#[trigger] ls0[l]).id == txs0[t].listing_id
                                && !ls0[l].is_active;
                        assert(ls1[w] == ls0[w]);
                    } else {
                        let p = pos as int;
                        assert(0 <= p < ls1.len() && ls1[p].id == txs1[t].listing_id
                            && !ls1[p].is_active);
                    }
                }
            }
        }
        Ok(PendingPurchase { transaction, registry_address: address })
    }

    /// The resolve step of a purchase: advances the pending transaction to
    /// its terminal status and, unless the transfer succeeded, compensates
    /// by re-reading the listing and reactivating it. The final transaction
    /// record is returned for every outcome; the transaction, once terminal,
    /// is never mutated again.
    pub fn buy_resolve(&mut self, transaction_id: u64, outcome: TransferOutcome) -> (r: Result<
        Transaction,
        MarketError,
    >)
        requires
            old(self).inv(),
        ensures
            final(self).inv(),
            (match find_transaction(old(self).transactions@, transaction_id) {
                None => (r matches Err(MarketError::NotFound)) && *final(self) == *old(self),
                Some(t) => if t.status != TransactionStatus::Pending {
                    (r matches Err(MarketError::StateConflict)) && *final(self) == *old(self)
                } else {
                    r matches Ok(rt)
                        && rt@ == (TransactionView { status: outcome_status(outcome), ..t })
                        && final(self).transactions@.len() == old(self).transactions@.len()
                        && (forall|k: int|
                            0 <= k < old(self).transactions@.len()
                                ==> #[trigger] final(self).transactions@[k] == (if old(self).transactions@[k].id == transaction_id {
                                (TransactionView {
                                    status: outcome_status(outcome),
                                    ..old(self).transactions@[k]
                                })
                            } else {
                                old(self).transactions@[k]
                            }))
                        && ((outcome is Success) ==> final(self).listings@
                            == old(self).listings@)
                        && (!(outcome is Success) ==> final(self).listings@.len() == old(self).listings@.len() && (forall|k: int|
                            0 <= k < old(self).listings@.len()
                                ==> #[trigger] final(self).listings@[k] == (if old(self).listings@[k].id == t.listing_id {
                                (ListingView { is_active: true, ..old(self).listings@[k] })
                            } else {
                                old(self).listings@[k]
                            })))
                        && final(self).ids == old(self).ids
                        && final(self).spec_registry_address() == old(self).spec_registry_address()
                },
            }),
    {
        let pos = match self.transactions.position_of(transaction_id) {
            None => {
                proof {
                    lemma_find_transaction_none(self.transactions@, transaction_id);
                }
                return Err(MarketError::NotFound);
            },
            Some(p) => p,
        };
        proof {
            lemma_find_transaction_at(self.transactions@, transaction_id, pos as int);
        }
        let pending = self.transactions.at(pos).status == TransactionStatus::Pending;
        if !pending {
            return Err(MarketError::StateConflict);
        }
        let success = match &outcome {
            TransferOutcome::Success => true,
            _ => false,
        };
        let mut updated = self.transactions.at(pos).clone();
        updated.status = if success {
            TransactionStatus::Completed
        } else {
            TransactionStatus::Failed
        };
        self.transactions.replace_at(pos, updated.clone());
        proof {
            assert(self.transactions@ =~= old(self).transactions@.update(
                pos as int,
                updated@,
            ));
        }
        if !success {
            match self.listings.position_of(updated.listing_id) {
                Some(lpos) => {
                    let mut l = self.listings.at(lpos).clone();
                    l.is_active = true;
                    self.listings.replace_at(lpos, l);
                    proof {
                        let p = lpos as int;
                        assert(self.listings@ =~= old(self).listings@.update(
                            p,
                            self.listings@[p],
                        ));
                    }
                },
                None => {
                    proof {
                        let t = pos as int;
                        let txs0 = old(self).transactions@;
                        assert(txs0[t].status == TransactionStatus::Pending);
                        let w = choose|l: int|
                            0 <= l < old(self).listings@.len() && (#[trigger] old(self).listings@[l]).id == txs0[t].listing_id && !old(self).listings@[l].is_active;
                        assert(false);
                    }
                },
            }
        }
        proof {
            let ls0 = old(self).listings@;
            let ls1 = self.listings@;
            let txs0 = old(self).transactions@;
            let txs1 = self.transactions@;
            assert(forall|i: int| 0 <= i < ls0.len() ==> (#[trigger] ls1[i]).id == ls0[i].id);
            assert(forall|i: int| 0 <= i < txs0.len() ==> (#[trigger] txs1[i]).id == txs0[i].id);
            assert(pending_mutex(txs1)) by {
                assert(forall|i: int|
                    0 <= i < txs1.len() && (#[trigger] txs1[i]).status == TransactionStatus::Pending
                        ==> txs0[i].status == TransactionStatus::Pending && txs1[i].listing_id
                        == txs0[i].listing_id);
            }
            assert(pending_backed(ls1, txs1)) by {
                assert forall|t: int|
                    0 <= t < txs1.len() && (#[trigger] txs1[t]).status == TransactionStatus::Pending
                        implies exists|l: int|
                    0 <= l < ls1.len() && (#[trigger] ls1[l]).id == txs1[t].listing_id
                        && !ls1[l].is_active by {
                    assert(t != pos as int);
                    assert(txs1[t] == txs0[t]);
                    let w = choose|l: int|
                        0 <= l < ls0.len() && (#[trigger] ls0[l]).id == txs0[t].listing_id
                            && !ls0[l].is_active;
                    assert(txs0[t].listing_id != txs0[pos as int].listing_id);
                    assert(ls1[w].id == ls0[w].id);
                    assert(ls1[w] == ls0[w]) by {
                        if ls1[w] != ls0[w] {
                            assert(ls0[w].id == txs0[pos as int].listing_id);
                        }
                    }
                }
            }
        }
        Ok(updated)
    }
}

impl Marketplace {
    /// Mutates the price of an active listing, seller only.
    pub fn update_listing_price(
        &mut self,
        caller: &Identity,
        now: u64,
        listing_id: u64,
        new_price: u64,
    ) -> (r: Result<Listing, MarketError>)
        requires
            old(self).inv(),
        ensures
            final(self).inv(),
            (match find_listing(old(self).listings@, listing_id) {
                None => (r matches Err(MarketError::NotFound)) && *final(self) == *old(self),
                Some(l) => if l.seller != caller@ {
                    (r matches Err(MarketError::Forbidden)) && *final(self) == *old(self)
                } else if !l.is_active {
                    (r matches Err(MarketError::StateConflict)) && *final(self) == *old(self)
                } else {
                    r matches Ok(rl)
                        && rl@ == (ListingView { price: new_price, updated_at: now, ..l })
                        && final(self).listings@.len() == old(self).listings@.len()
                        && (forall|k: int|
                            0 <= k < old(self).listings@.len()
                                ==> #[trigger] final(self).listings@[k] == (if old(self).listings@[k].id
                                == listing_id {
                                (ListingView {
                                    price: new_price,
                                    updated_at: now,
                                    ..old(self).listings@[k]
                                })
                            } else {
                                old(self).listings@[k]
                            }))
                        && final(self).transactions@ == old(self).transactions@
                        && final(self).ids == old(self).ids
                        && final(self).spec_registry_address() == old(self).spec_registry_address()
                },
            }),
    {
        let pos = match self.listings.position_of(listing_id) {
            None => {
                proof {
                    lemma_find_listing_none(self.listings@, listing_id);
                }
                return Err(MarketError::NotFound);
            },
            Some(p) => p,
        };
        proof {
            lemma_find_listing_at(self.listings@, listing_id, pos as int);
        }
        if !self.listings.at(pos).seller.same_as(caller) {
            return Err(MarketError::Forbidden);
        }
        if !self.listings.at(pos).is_active {
            return Err(MarketError::StateConflict);
        }
        let mut updated = self.listings.at(pos).clone();
        updated.price = new_price;
        updated.updated_at = now;
        let returned = updated.clone();
        self.listings.replace_at(pos, updated);
        proof {
            let ls0 = old(self).listings@;
            let ls1 = self.listings@;
            let p = pos as int;
            assert(ls1 =~= ls0.update(p, ls1[p]));
            assert(forall|i: int| 0 <= i < ls0.len() ==> (#[trigger] ls1[i]).id == ls0[i].id);
            assert(pending_backed(ls1, self.transactions@)) by {
                assert forall|t: int|
                    0 <= t < self.transactions@.len() && (#[trigger] self.transactions@[t]).status
                        == TransactionStatus::Pending implies exists|l: int|
                    0 <= l < ls1.len() && (#[trigger] ls1[l]).id
                        == self.transactions@[t].listing_id && !ls1[l].is_active by {
                    let w = choose|l: int|
                        0 <= l < ls0.len() && (#[trigger] ls0[l]).id
                            == self.transactions@[t].listing_id && !ls0[l].is_active;
                    assert(ls1[w] == ls0[w]) by {
                        if w == p {
                            assert(!ls0[p].is_active);
                        }
                    }
                }
            }
        }
        Ok(returned)
    }

    /// Withdraws a listing from the market, seller only: a unilateral
    /// cancellation that creates no transaction.
    pub fn cancel_listing(&mut self, caller: &Identity, now: u64, listing_id: u64) -> (r: Result<
        Listing,
        MarketError,
    >)
        requires
            old(self).inv(),
        ensures
            final(self).inv(),
            (match find_listing(old(self).listings@, listing_id) {
                None => (r matches Err(MarketError::NotFound)) && *final(self) == *old(self),
                Some(l) => if l.seller != caller@ {
                    (r matches Err(MarketError::Forbidden)) && *final(self) == *old(self)
                } else {
                    r matches Ok(rl)
                        && rl@ == (ListingView { is_active: false, updated_at: now, ..l })
                        && final(self).listings@.len() == old(self).listings@.len()
                        && (forall|k: int|
                            0 <= k < old(self).listings@.len()
                                ==> #[trigger] final(self).listings@[k] == (if old(self).listings@[k].id
                                == listing_id {
                                (ListingView {
                                    is_active: false,
                                    updated_at: now,
                                    ..old(self).listings@[k]
                                })
                            } else {
                                old(self).listings@[k]
                            }))
                        && final(self).transactions@ == old(self).transactions@
                        && final(self).ids == old(self).ids
                        && final(self).spec_registry_address() == old(self).spec_registry_address()
                },
            }),
    {
        let pos = match self.listings.position_of(listing_id) {
            None => {
                proof {
                    lemma_find_listing_none(self.listings@, listing_id);
                }
                return Err(MarketError::NotFound);
            },
            Some(p) => p,
        };
        proof {
            lemma_find_listing_at(self.listings@, listing_id, pos as int);
        }
        if !self.listings.at(pos).seller.same_as(caller) {
            return Err(MarketError::Forbidden);
        }
        let mut updated = self.listings.at(pos).clone();
        updated.is_active = false;
        updated.updated_at = now;
        let returned = updated.clone();
        self.listings.replace_at(pos, updated);
        proof {
            let ls0 = old(self).listings@;
            let ls1 = self.listings@;
            let p = pos as int;
            assert(ls1 =~= ls0.update(p, ls1[p]));
            assert(forall|i: int| 0 <= i < ls0.len() ==> (#[trigger] ls1[i]).id == ls0[i].id);
            assert(pending_backed(ls1, self.transactions@)) by {
                assert forall|t: int|
                    0 <= t < self.transactions@.len() && (#[trigger] self.transactions@[t]).status
                        == TransactionStatus::Pending implies exists|l: int|
                    0 <= l < ls1.len() && (#[trigger] ls1[l]).id
                        == self.transactions@[t].listing_id && !ls1[l].is_active by {
                    let w = choose|l: int|
                        0 <= l < ls0.len() && (#[trigger] ls0[l]).id
                            == self.transactions@[t].listing_id && !ls0[l].is_active;
                    assert(ls1[w].id == ls0[w].id && !ls1[w].is_active);
                }
            }
        }
        Ok(returned)
    }

    /// Configures the address of the registry service. Any identified caller
    /// may set it; an anonymous caller is rejected.
    pub fn set_asset_canister_id(&mut self, caller: &Identity, address: String) -> (r: Result<
        String,
        MarketError,
    >)
        requires
            old(self).inv(),
        ensures
            final(self).inv(),
            caller.spec_is_anonymous() ==> (r matches Err(MarketError::Unauthenticated)) && *final(self) == *old(self),
            !caller.spec_is_anonymous() ==> (r matches Ok(a) && a@ == address@) && final(self).spec_registry_address() == Some(address@) && final(self).listings@ == old(self).listings@ && final(self).transactions@ == old(self).transactions@ && final(self).ids
                == old(self).ids,
    {
        if caller.is_anonymous() {
            return Err(MarketError::Unauthenticated);
        }
        let returned = address.clone();
        self.registry_address = Some(address);
        Ok(returned)
    }

    /// The configured registry address, if any.
    pub fn get_asset_canister_id(&self) -> (r: Option<String>)
        ensures
            (match r {
                Some(a) => self.spec_registry_address() == Some(a@),
                None => self.spec_registry_address() is None,
            }),
    {
        match &self.registry_address {
            Some(a) => Some(a.clone()),
            None => None,
        }
    }
}

/// The active listings of `s`, in stored order.
pub open spec fn active_listings(s: Seq<ListingView>) -> Seq<ListingView> {
    s.filter(|l: ListingView| l.is_active)
}

/// The listings of `s` owned by `seller`, in stored order.
pub open spec fn seller_listings(s: Seq<ListingView>, seller: Seq<u8>) -> Seq<ListingView> {
    s.filter(|l: ListingView| l.seller == seller)
}

/// The transactions of `s` in which `user` took part, as buyer or seller.
pub open spec fn user_transactions(s: Seq<TransactionView>, user: Seq<u8>) -> Seq<TransactionView> {
    s.filter(|t: TransactionView| t.buyer == user || t.seller == user)
}

/// The transactions of `s` in which `user` was the buyer.
pub open spec fn user_purchases(s: Seq<TransactionView>, user: Seq<u8>) -> Seq<TransactionView> {
    s.filter(|t: TransactionView| t.buyer == user)
}

/// The transactions of `s` in which `user` was the seller.
pub open spec fn user_sales(s: Seq<TransactionView>, user: Seq<u8>) -> Seq<TransactionView> {
    s.filter(|t: TransactionView| t.seller == user)
}

/// The total price of the completed transactions of `s`.
pub open spec fn volume_of(s: Seq<TransactionView>) -> int
    decreases s.len(),
{
    if s.len() == 0 {
        0
    } else {
        volume_of(s.drop_last()) + (if s.last().status == TransactionStatus::Completed {
            s.last().price as int
        } else {
            0
        })
    }
}

/// How `active_listings` grows by one element of `s`.
proof fn lemma_active_step(s: Seq<ListingView>, i: int)
    requires
        0 <= i < s.len(),
    ensures
        active_listings(s.subrange(0, i + 1)) == (if s[i].is_active {
            active_listings(s.subrange(0, i)).push(s[i])
        } else {
            active_listings(s.subrange(0, i))
        }),
{
    reveal(Seq::filter);
    assert(s.subrange(0, i + 1).drop_last() =~= s.subrange(0, i));
}

/// How `seller_listings` grows by one element of `s`.
proof fn lemma_seller_step(s: Seq<ListingView>, seller: Seq<u8>, i: int)
    requires
        0 <= i < s.len(),
    ensures
        seller_listings(s.subrange(0, i + 1), seller) == (if s[i].seller == seller {
            seller_listings(s.subrange(0, i), seller).push(s[i])
        } else {
            seller_listings(s.subrange(0, i), seller)
        }),
{
    reveal(Seq::filter);
    assert(s.subrange(0, i + 1).drop_last() =~= s.subrange(0, i));
}

/// How `user_transactions` grows by one element of `s`.
proof fn lemma_user_transactions_step(s: Seq<TransactionView>, user: Seq<u8>, i: int)
    requires
        0 <= i < s.len(),
    ensures
        user_transactions(s.subrange(0, i + 1), user) == (if s[i].buyer == user || s[i].seller
            == user {
            user_transactions(s.subrange(0, i), user).push(s[i])
        } else {
            user_transactions(s.subrange(0, i), user)
        }),
{
    reveal(Seq::filter);
    assert(s.subrange(0, i + 1).drop_last() =~= s.subrange(0, i));
}

/// How `user_purchases` grows by one element of `s`.
proof fn lemma_user_purchases_step(s: Seq<TransactionView>, user: Seq<u8>, i: int)
    requires
        0 <= i < s.len(),
    ensures
        user_purchases(s.subrange(0, i + 1), user) == (if s[i].buyer == user {
            user_purchases(s.subrange(0, i), user).push(s[i])
        } else {
            user_purchases(s.subrange(0, i), user)
        }),
{
    reveal(Seq::filter);
    assert(s.subrange(0, i + 1).drop_last() =~= s.subrange(0, i));
}

/// How `user_sales` grows by one element of `s`.
proof fn lemma_user_sales_step(s: Seq<TransactionView>, user: Seq<u8>, i: int)
    requires
        0 <= i < s.len(),
    ensures
        user_sales(s.subrange(0, i + 1), user) == (if s[i].seller == user {
            user_sales(s.subrange(0, i), user).push(s[i])
        } else {
            user_sales(s.subrange(0, i), user)
        }),
{
    reveal(Seq::filter);
    assert(s.subrange(0, i + 1).drop_last() =~= s.subrange(0, i));
}

/// How `volume_of` grows by one element of `s`.
proof fn lemma_volume_step(s: Seq<TransactionView>, i: int)
    requires
        0 <= i < s.len(),
    ensures
        volume_of(s.subrange(0, i + 1)) == volume_of(s.subrange(0, i)) + (if s[i].status
            == TransactionStatus::Completed {
            s[i].price as int
        } else {
            0
        }),
{
    assert(s.subrange(0, i + 1).drop_last() =~= s.subrange(0, i));
}

/// The volume of a prefix never exceeds the volume of the whole ledger.
proof fn lemma_volume_prefix(s: Seq<TransactionView>, i: int)
    requires
        0 <= i <= s.len(),
    ensures
        volume_of(s.subrange(0, i)) <= volume_of(s),
    decreases s.len() - i,
{
    if i == s.len() {
        assert(s.subrange(0, i) =~= s);
    } else {
        lemma_volume_step(s, i);
        lemma_volume_prefix(s, i + 1);
    }
}

impl Marketplace {
    /// All active listings, in stored order.
    pub fn get_marketplace_listings(&self) -> (r: Vec<Listing>)
        ensures
            crate::model::listing_views(r@) == active_listings(self.listings@),
    {
        let mut result: Vec<Listing> = Vec::new();
        let n = self.listings.len();
        let mut i: usize = 0;
        proof {
            assert(crate::model::listing_views(result@) =~= active_listings(
                self.listings@.subrange(0, 0),
            )) by {
                reveal(Seq::filter);
                assert(self.listings@.subrange(0, 0) =~= Seq::<ListingView>::empty());
            }
        }
        while i < n
            invariant
                n == self.listings@.len(),
                i <= n,
                crate::model::listing_views(result@) =~= active_listings(
                    self.listings@.subrange(0, i as int),
                ),
            decreases n - i,
        {
            proof {
                lemma_active_step(self.listings@, i as int);
            }
            let ghost prev = result@;
            let l = self.listings.at(i);
            if l.is_active {
                result.push(l.clone());
                proof {
                    assert(crate::model::listing_views(result@) =~= crate::model::listing_views(
                        prev,
                    ).push(self.listings@[i as int]));
                }
            }
            i = i + 1;
        }
        proof {
            assert(self.listings@.subrange(0, n as int) =~= self.listings@);
        }
        result
    }

    /// The listings owned by `seller`, active or not, in stored order.
    pub fn get_user_listings(&self, seller: &Identity) -> (r: Vec<Listing>)
        ensures
            crate::model::listing_views(r@) == seller_listings(self.listings@, seller@),
    {
        let mut result: Vec<Listing> = Vec::new();
        let n = self.listings.len();
        let mut i: usize = 0;
        proof {
            assert(crate::model::listing_views(result@) =~= seller_listings(
                self.listings@.subrange(0, 0),
                seller@,
            )) by {
                reveal(Seq::filter);
                assert(self.listings@.subrange(0, 0) =~= Seq::<ListingView>::empty());
            }
        }
        while i < n
            invariant
                n == self.listings@.len(),
                i <= n,
                crate::model::listing_views(result@) =~= seller_listings(
                    self.listings@.subrange(0, i as int),
                    seller@,
                ),
            decreases n - i,
        {
            proof {
                lemma_seller_step(self.listings@, seller@, i as int);
            }
            let ghost prev = result@;
            let l = self.listings.at(i);
            if l.seller.same_as(seller) {
                result.push(l.clone());
                proof {
                    assert(crate::model::listing_views(result@) =~= crate::model::listing_views(
                        prev,
                    ).push(self.listings@[i as int]));
                }
            }
            i = i + 1;
        }
        proof {
            assert(self.listings@.subrange(0, n as int) =~= self.listings@);
        }
        result
    }

    /// The transactions in which `user` took part, as buyer or seller.
    pub fn get_user_transactions(&self, user: &Identity) -> (r: Vec<Transaction>)
        ensures
            crate::model::transaction_views(r@) == user_transactions(self.transactions@, user@),
    {
        let mut result: Vec<Transaction> = Vec::new();
        let n = self.transactions.len();
        let mut i: usize = 0;
        proof {
            assert(crate::model::transaction_views(result@) =~= user_transactions(
                self.transactions@.subrange(0, 0),
                user@,
            )) by {
                reveal(Seq::filter);
                assert(self.transactions@.subrange(0, 0) =~= Seq::<TransactionView>::empty());
            }
        }
        while i < n
            invariant
                n == self.transactions@.len(),
                i <= n,
                crate::model::transaction_views(result@) =~= user_transactions(
                    self.transactions@.subrange(0, i as int),
                    user@,
                ),
            decreases n - i,
        {
            proof {
                lemma_user_transactions_step(self.transactions@, user@, i as int);
            }
            let ghost prev = result@;
            let t = self.transactions.at(i);
            if t.buyer.same_as(user) || t.seller.same_as(user) {
                result.push(t.clone());
                proof {
                    assert(crate::model::transaction_views(result@)
                        =~= crate::model::transaction_views(prev).push(
                        self.transactions@[i as int],
                    ));
                }
            }
            i = i + 1;
        }
        proof {
            assert(self.transactions@.subrange(0, n as int) =~= self.transactions@);
        }
        result
    }

    /// The transactions in which `buyer` bought.
    pub fn get_user_purchases(&self, buyer: &Identity) -> (r: Vec<Transaction>)
        ensures
            crate::model::transaction_views(r@) == user_purchases(self.transactions@, buyer@),
    {
        let mut result: Vec<Transaction> = Vec::new();
        let n = self.transactions.len();
        let mut i: usize = 0;
        proof {
            assert(crate::model::transaction_views(result@) =~= user_purchases(
                self.transactions@.subrange(0, 0),
                buyer@,
            )) by {
                reveal(Seq::filter);
                assert(self.transactions@.subrange(0, 0) =~= Seq::<TransactionView>::empty());
            }
        }
        while i < n
            invariant
                n == self.transactions@.len(),
                i <= n,
                crate::model::transaction_views(result@) =~= user_purchases(
                    self.transactions@.subrange(0, i as int),
                    buyer@,
                ),
            decreases n - i,
        {
            proof {
                lemma_user_purchases_step(self.transactions@, buyer@, i as int);
            }
            let ghost prev = result@;
            let t = self.transactions.at(i);
            if t.buyer.same_as(buyer) {
                result.push(t.clone());
                proof {
                    assert(crate::model::transaction_views(result@)
                        =~= crate::model::transaction_views(prev).push(
                        self.transactions@[i as int],
                    ));
                }
            }
            i = i + 1;
        }
        proof {
            assert(self.transactions@.subrange(0, n as int) =~= self.transactions@);
        }
        result
    }

    /// The transactions in which `seller` sold.
    pub fn get_user_sales(&self, seller: &Identity) -> (r: Vec<Transaction>)
        ensures
            crate::model::transaction_views(r@) == user_sales(self.transactions@, seller@),
    {
        let mut result: Vec<Transaction> = Vec::new();
        let n = self.transactions.len();
        let mut i: usize = 0;
        proof {
            assert(crate::model::transaction_views(result@) =~= user_sales(
                self.transactions@.subrange(0, 0),
                seller@,
            )) by {
                reveal(Seq::filter);
                assert(self.transactions@.subrange(0, 0) =~= Seq::<TransactionView>::empty());
            }
        }
        while i < n
            invariant
                n == self.transactions@.len(),
                i <= n,
                crate::model::transaction_views(result@) =~= user_sales(
                    self.transactions@.subrange(0, i as int),
                    seller@,
                ),
            decreases n - i,
        {
            proof {
                lemma_user_sales_step(self.transactions@, seller@, i as int);
            }
            let ghost prev = result@;
            let t = self.transactions.at(i);
            if t.seller.same_as(seller) {
                result.push(t.clone());
                proof {
                    assert(crate::model::transaction_views(result@)
                        =~= crate::model::transaction_views(prev).push(
                        self.transactions@[i as int],
                    ));
                }
            }
            i = i + 1;
        }
        proof {
            assert(self.transactions@.subrange(0, n as int) =~= self.transactions@);
        }
        result
    }

    /// Whether the total volume of completed sales fits the counter word,
    /// as [`Self::get_marketplace_stats`] requires.
    pub fn volume_fits(&self) -> (r: bool)
        ensures
            r == (volume_of(self.transactions@) <= u64::MAX),
    {
        let m = self.transactions.len();
        let mut volume: u64 = 0;
        let mut j: usize = 0;
        proof {
            assert(volume_of(self.transactions@.subrange(0, 0)) == 0);
        }
        while j < m
            invariant
                m == self.transactions@.len(),
                j <= m,
                volume == volume_of(self.transactions@.subrange(0, j as int)),
            decreases m - j,
        {
            proof {
                lemma_volume_step(self.transactions@, j as int);
            }
            let t = self.transactions.at(j);
            if t.status == TransactionStatus::Completed {
                if t.price > u64::MAX - volume {
                    proof {
                        lemma_volume_prefix(self.transactions@, j + 1);
                    }
                    return false;
                }
                volume = volume + t.price;
            }
            j = j + 1;
        }
        proof {
            assert(self.transactions@.subrange(0, m as int) =~= self.transactions@);
        }
        true
    }

    /// Aggregate counters: listings in all, active listings, transactions in
    /// all, and the total volume of completed sales.
    pub fn get_marketplace_stats(&self) -> (r: crate::model::MarketplaceStats)
        requires
            volume_of(self.transactions@) <= u64::MAX,
        ensures
            r.total_listings == self.listings@.len(),
            r.active_listings == active_listings(self.listings@).len(),
            r.total_transactions == self.transactions@.len(),
            r.total_volume == volume_of(self.transactions@),
    {
        let total_listings = self.listings.len() as u64;
        let n = self.listings.len();
        let mut active: u64 = 0;
        let mut i: usize = 0;
        proof {
            assert(active_listings(self.listings@.subrange(0, 0)) =~= Seq::<
                ListingView,
            >::empty()) by {
                reveal(Seq::filter);
                assert(self.listings@.subrange(0, 0) =~= Seq::<ListingView>::empty());
            }
        }
        while i < n
            invariant
                n == self.listings@.len(),
                i <= n,
                active <= i,
                active == active_listings(self.listings@.subrange(0, i as int)).len(),
            decreases n - i,
        {
            proof {
                lemma_active_step(self.listings@, i as int);
            }
            if self.listings.at(i).is_active {
                active = active + 1;
            }
            i = i + 1;
        }
        proof {
            assert(self.listings@.subrange(0, n as int) =~= self.listings@);
        }
        let m = self.transactions.len();
        let total_transactions = m as u64;
        let mut volume: u64 = 0;
        let mut j: usize = 0;
        proof {
            assert(volume_of(self.transactions@.subrange(0, 0)) == 0);
        }
        while j < m
            invariant
                m == self.transactions@.len(),
                j <= m,
                volume == volume_of(self.transactions@.subrange(0, j as int)),
                volume_of(self.transactions@) <= u64::MAX,
            decreases m - j,
        {
            proof {
                lemma_volume_step(self.transactions@, j as int);
                lemma_volume_prefix(self.transactions@, j + 1);
            }
            let t = self.transactions.at(j);
            if t.status == TransactionStatus::Completed {
                volume = volume + t.price;
            }
            j = j + 1;
        }
        proof {
            assert(self.transactions@.subrange(0, m as int) =~= self.transactions@);
        }
        crate::model::MarketplaceStats {
            total_listings,
            active_listings: active,
            total_transactions,
            total_volume: volume,
        }
    }
}

/// The active listings of `s` that match the lowercase query `q`.
pub open spec fn matching_listings(s: Seq<ListingView>, q: Seq<char>) -> Seq<ListingView> {
    s.filter(|l: ListingView| l.is_active && crate::text::listing_matches(l, q))
}

/// The active listings of `s` whose lowercase category is `c`.
pub open spec fn category_listings(s: Seq<ListingView>, c: Seq<char>) -> Seq<ListingView> {
    s.filter(|l: ListingView| l.is_active && crate::text::lower_of(l.category) == c)
}

/// How `matching_listings` grows by one element of `s`.
proof fn lemma_matching_step(s: Seq<ListingView>, q: Seq<char>, i: int)
    requires
        0 <= i < s.len(),
    ensures
        matching_listings(s.subrange(0, i + 1), q) == (if s[i].is_active
            && crate::text::listing_matches(s[i], q) {
            matching_listings(s.subrange(0, i), q).push(s[i])
        } else {
            matching_listings(s.subrange(0, i), q)
        }),
{
    reveal(Seq::filter);
    assert(s.subrange(0, i + 1).drop_last() =~= s.subrange(0, i));
}

/// How `category_listings` grows by one element of `s`.
proof fn lemma_category_step(s: Seq<ListingView>, c: Seq<char>, i: int)
    requires
        0 <= i < s.len(),
    ensures
        category_listings(s.subrange(0, i + 1), c) == (if s[i].is_active
            && crate::text::lower_of(s[i].category) == c {
            category_listings(s.subrange(0, i), c).push(s[i])
        } else {
            category_listings(s.subrange(0, i), c)
        }),
{
    reveal(Seq::filter);
    assert(s.subrange(0, i + 1).drop_last() =~= s.subrange(0, i));
}

impl Marketplace {
    /// The active listings whose lowercase title, description, category or
    /// tags hold the lowercase form of `query` as a substring.
    pub fn search_listings(&self, query: &String) -> (r: Vec<Listing>)
        ensures
            crate::model::listing_views(r@) == matching_listings(
                self.listings@,
                crate::text::lower_of(query@),
            ),
    {
        let q = crate::text::lowercase(query);
        let mut result: Vec<Listing> = Vec::new();
        let n = self.listings.len();
        let mut i: usize = 0;
        proof {
            assert(crate::model::listing_views(result@) =~= matching_listings(
                self.listings@.subrange(0, 0),
                q@,
            )) by {
                reveal(Seq::filter);
                assert(self.listings@.subrange(0, 0) =~= Seq::<ListingView>::empty());
            }
        }
        while i < n
            invariant
                n == self.listings@.len(),
                i <= n,
                q@ == crate::text::lower_of(query@),
                crate::model::listing_views(result@) =~= matching_listings(
                    self.listings@.subrange(0, i as int),
                    q@,
                ),
            decreases n - i,
        {
            proof {
                lemma_matching_step(self.listings@, q@, i as int);
            }
            let ghost prev = result@;
            let l = self.listings.at(i);
            if l.is_active && crate::text::listing_matches_query(l, &q) {
                result.push(l.clone());
                proof {
                    assert(crate::model::listing_views(result@) =~= crate::model::listing_views(
                        prev,
                    ).push(self.listings@[i as int]));
                }
            }
            i = i + 1;
        }
        proof {
            assert(self.listings@.subrange(0, n as int) =~= self.listings@);
        }
        result
    }

    /// The active listings of the given category, compared without regard
    /// to case.
    pub fn get_listings_by_category(&self, category: &String) -> (r: Vec<Listing>)
        ensures
            crate::model::listing_views(r@) == category_listings(
                self.listings@,
                crate::text::lower_of(category@),
            ),
    {
        let c = crate::text::lowercase(category);
        let mut result: Vec<Listing> = Vec::new();
        let n = self.listings.len();
        let mut i: usize = 0;
        proof {
            assert(crate::model::listing_views(result@) =~= category_listings(
                self.listings@.subrange(0, 0),
                c@,
            )) by {
                reveal(Seq::filter);
                assert(self.listings@.subrange(0, 0) =~= Seq::<ListingView>::empty());
            }
        }
        while i < n
            invariant
                n == self.listings@.len(),
                i <= n,
                c@ == crate::text::lower_of(category@),
                crate::model::listing_views(result@) =~= category_listings(
                    self.listings@.subrange(0, i as int),
                    c@,
                ),
            decreases n - i,
        {
            proof {
                lemma_category_step(self.listings@, c@, i as int);
            }
            let ghost prev = result@;
            let l = self.listings.at(i);
            if l.is_active {
                let l_category = crate::text::lowercase(&l.category);
                if l_category == c {
                    result.push(l.clone());
                    proof {
                        assert(crate::model::listing_views(result@)
                            =~= crate::model::listing_views(prev).push(self.listings@[i as int]));
                    }
                }
            }
            i = i + 1;
        }
        proof {
            assert(self.listings@.subrange(0, n as int) =~= self.listings@);
        }
        result
    }
}

/// The terminal status that a transfer outcome drives the transaction to:
/// `Completed` on success, `Failed` on a rejection or a transport failure.
pub open spec fn outcome_status(outcome: TransferOutcome) -> TransactionStatus {
    match outcome {
        TransferOutcome::Success => TransactionStatus::Completed,
        TransferOutcome::Rejected(_) => TransactionStatus::Failed,
        TransferOutcome::TransportFailure(_) => TransactionStatus::Failed,
    }
}

/// Maps a resolved purchase to what the buy operation answers its caller:
/// the final transaction on success, and the transfer rejection or the
/// transport failure, with its reason, otherwise.
pub fn purchase_result(transaction: Transaction, outcome: TransferOutcome) -> (r: Result<
    Transaction,
    MarketError,
>)
    ensures
        (match outcome {
            TransferOutcome::Success => r matches Ok(rt) && rt@ == transaction@,
            TransferOutcome::Rejected(m) => r matches Err(e) && e == (
            MarketError::TransferRejected(m)),
            TransferOutcome::TransportFailure(m) => r matches Err(e) && e == (
            MarketError::TransportError(m)),
        }),
{
    match outcome {
        TransferOutcome::Success => Ok(transaction),
        TransferOutcome::Rejected(m) => Err(MarketError::TransferRejected(m)),
        TransferOutcome::TransportFailure(m) => Err(MarketError::TransportError(m)),
    }
}

} // verus!
