//! The listing store and the transaction ledger: keyed tables ordered by id,
//! supporting insert, point lookup, in-place update, and full scan.

use vstd::prelude::*;
use crate::model::{Listing, ListingView, Transaction, TransactionView};

verus! {

/// Whether the listing ids of `s` are strictly increasing (hence unique).
pub open spec fn listing_ids_increasing(s: Seq<ListingView>) -> bool {
    forall|i: int, j: int| 0 <= i < j < s.len() ==> s[i].id < s[j].id
}

/// The first listing of `s` with the given id, if any.
pub open spec fn find_listing(s: Seq<ListingView>, id: u64) -> Option<ListingView>
    decreases s.len(),
{
    if s.len() == 0 {
        None
    } else if s[0].id == id {
        Some(s[0])
    } else {
        find_listing(s.drop_first(), id)
    }
}

/// `find_listing` returns the element at the first position whose id matches.
pub proof fn lemma_find_listing_at(s: Seq<ListingView>, id: u64, i: int)
    requires
        0 <= i < s.len(),
        s[i].id == id,
        forall|k: int| 0 <= k < i ==> s[k].id != id,
    ensures
        find_listing(s, id) == Some(s[i]),
    decreases i,
{
    if i == 0 {
    } else {
        lemma_find_listing_at(s.drop_first(), id, i - 1);
    }
}

/// `find_listing` returns nothing when no id of `s` matches.
pub proof fn lemma_find_listing_none(s: Seq<ListingView>, id: u64)
    requires
        forall|k: int| 0 <= k < s.len() ==> s[k].id != id,
    ensures
        find_listing(s, id) is None,
    decreases s.len(),
{
    if s.len() > 0 {
        lemma_find_listing_none(s.drop_first(), id);
    }
}

/// The keyed store of listings, ordered by id. Listings are inserted with a
/// fresh id, mutated in place, and never removed.
pub struct ListingStore {
    items: Vec<Listing>,
}

impl View for ListingStore {
    type V = Seq<ListingView>;

    closed spec fn view(&self) -> Seq<ListingView> {
        Seq::new(self.items@.len(), |i: int| self.items@[i]@)
    }
}

impl ListingStore {
    /// An empty store.
    pub fn new() -> (r: ListingStore)
        ensures
            r@ =~= Seq::<ListingView>::empty(),
    {
        ListingStore { items: Vec::new() }
    }

    pub fn len(&self) -> (r: usize)
        ensures
            r == self@.len(),
    {
        self.items.len()
    }

    /// The listing at position `i` of the scan order.
    pub fn at(&self, i: usize) -> (r: &Listing)
        requires
            i < self@.len(),
        ensures
            r@ == self@[i as int],
    {
        &self.items[i]
    }

    /// The position of the first listing with the given id.
    pub fn position_of(&self, id: u64) -> (r: Option<usize>)
        ensures
            match r {
                Some(i) => i < self@.len() && self@[i as int].id == id && (forall|k: int|
                    0 <= k < i ==> self@[k].id != id),
                None => forall|k: int| 0 <= k < self@.len() ==> self@[k].id != id,
            },
    {
        let n = self.items.len();
        let mut i: usize = 0;
        while i < n
            invariant
                n == self@.len(),
                i <= n,
                forall|k: int| 0 <= k < i ==> self@[k].id != id,
            decreases n - i,
        {
            if self.items[i].id == id {
                return Some(i);
            }
            i = i + 1;
        }
        None
    }

    /// Point lookup by id.
    pub fn get(&self, id: u64) -> (r: Option<&Listing>)
        ensures
            match r {
                Some(l) => find_listing(self@, id) == Some(l@),
                None => find_listing(self@, id) is None,
            },
    {
        match self.position_of(id) {
            Some(i) => {
                proof {
                    lemma_find_listing_at(self@, id, i as int);
                }
                Some(&self.items[i])
            },
            None => {
                proof {
                    lemma_find_listing_none(self@, id);
                }
                None
            },
        }
    }

    /// Appends a listing whose id is larger than every stored one.
    pub fn insert_fresh(&mut self, l: Listing)
        requires
            forall|k: int| 0 <= k < old(self)@.len() ==> old(self)@[k].id < l@.id,
        ensures
            final(self)@ =~= old(self)@.push(l@),
    {
        self.items.push(l);
    }

    /// Replaces the listing at position `i` by one with the same id.
    pub fn replace_at(&mut self, i: usize, l: Listing)
        requires
            i < old(self)@.len(),
            l@.id == old(self)@[i as int].id,
        ensures
            final(self)@ =~= old(self)@.update(i as int, l@),
    {
        self.items.set(i, l);
    }
}

/// Whether the transaction ids of `s` are strictly increasing (hence unique).
pub open spec fn transaction_ids_increasing(s: Seq<TransactionView>) -> bool {
    forall|i: int, j: int| 0 <= i < j < s.len() ==> s[i].id < s[j].id
}

/// The first transaction of `s` with the given id, if any.
pub open spec fn find_transaction(s: Seq<TransactionView>, id: u64) -> Option<TransactionView>
    decreases s.len(),
{
    if s.len() == 0 {
        None
    } else if s[0].id == id {
        Some(s[0])
    } else {
        find_transaction(s.drop_first(), id)
    }
}

/// `find_transaction` returns the element at the first matching position.
pub proof fn lemma_find_transaction_at(s: Seq<TransactionView>, id: u64, i: int)
    requires
        0 <= i < s.len(),
        s[i].id == id,
        forall|k: int| 0 <= k < i ==> s[k].id != id,
    ensures
        find_transaction(s, id) == Some(s[i]),
    decreases i,
{
    if i == 0 {
    } else {
        lemma_find_transaction_at(s.drop_first(), id, i - 1);
    }
}

/// `find_transaction` returns nothing when no id of `s` matches.
pub proof fn lemma_find_transaction_none(s: Seq<TransactionView>, id: u64)
    requires
        forall|k: int| 0 <= k < s.len() ==> s[k].id != id,
    ensures
        find_transaction(s, id) is None,
    decreases s.len(),
{
    if s.len() > 0 {
        lemma_find_transaction_none(s.drop_first(), id);
    }
}

/// What `find_transaction` hands back is an element of `s` carrying the id.
pub proof fn lemma_find_transaction_spec(s: Seq<TransactionView>, id: u64)
    ensures
        match find_transaction(s, id) {
            Some(t) => t.id == id && exists|i: int| 0 <= i < s.len() && s[i] == t,
            None => forall|i: int| 0 <= i < s.len() ==> s[i].id != id,
        },
    decreases s.len(),
{
    if s.len() == 0 {
    } else if s[0].id == id {
        assert(0 <= 0 < s.len() && s[0] == s[0]);
    } else {
        lemma_find_transaction_spec(s.drop_first(), id);
        match find_transaction(s.drop_first(), id) {
            Some(l) => {
                let i = choose|i: int| 0 <= i < s.drop_first().len() && s.drop_first()[i] == l;
                assert(s[i + 1] == s.drop_first()[i]);
            },
            None => {
                assert forall|i: int| 0 <= i < s.len() implies s[i].id != id by {
                    if i > 0 {
                        assert(s[i] == s.drop_first()[i - 1]);
                    }
                }
            },
        }
    }
}

/// The transaction ledger, ordered by id: append-mostly, mutated only to
/// advance a transaction's status.
pub struct TransactionLedger {
    items: Vec<Transaction>,
}

impl View for TransactionLedger {
    type V = Seq<TransactionView>;

    closed spec fn view(&self) -> Seq<TransactionView> {
        Seq::new(self.items@.len(), |i: int| self.items@[i]@)
    }
}

impl TransactionLedger {
    /// An empty ledger.
    pub fn new() -> (r: TransactionLedger)
        ensures
            r@ =~= Seq::<TransactionView>::empty(),
    {
        TransactionLedger { items: Vec::new() }
    }

    pub fn len(&self) -> (r: usize)
        ensures
            r == self@.len(),
    {
        self.items.len()
    }

    /// The transaction at position `i` of the scan order.
    pub fn at(&self, i: usize) -> (r: &Transaction)
        requires
            i < self@.len(),
        ensures
            r@ == self@[i as int],
    {
        &self.items[i]
    }

    /// The position of the first transaction with the given id.
    pub fn position_of(&self, id: u64) -> (r: Option<usize>)
        ensures
            match r {
                Some(i) => i < self@.len() && self@[i as int].id == id && (forall|k: int|
                    0 <= k < i ==> self@[k].id != id),
                None => forall|k: int| 0 <= k < self@.len() ==> self@[k].id != id,
            },
    {
        let n = self.items.len();
        let mut i: usize = 0;
        while i < n
            invariant
                n == self@.len(),
                i <= n,
                forall|k: int| 0 <= k < i ==> self@[k].id != id,
            decreases n - i,
        {
            if self.items[i].id == id {
                return Some(i);
            }
            i = i + 1;
        }
        None
    }

    /// Point lookup by id.
    pub fn get(&self, id: u64) -> (r: Option<&Transaction>)
        ensures
            match r {
                Some(t) => find_transaction(self@, id) == Some(t@),
                None => find_transaction(self@, id) is None,
            },
    {
        match self.position_of(id) {
            Some(i) => {
                proof {
                    lemma_find_transaction_at(self@, id, i as int);
                }
                Some(&self.items[i])
            },
            None => {
                proof {
                    lemma_find_transaction_none(self@, id);
                }
                None
            },
        }
    }

    /// Appends a transaction whose id is larger than every recorded one.
    pub fn insert_fresh(&mut self, t: Transaction)
        requires
            forall|k: int| 0 <= k < old(self)@.len() ==> old(self)@[k].id < t@.id,
        ensures
            final(self)@ =~= old(self)@.push(t@),
    {
        self.items.push(t);
    }

    /// Replaces the transaction at position `i` by one with the same id.
    pub fn replace_at(&mut self, i: usize, t: Transaction)
        requires
            i < old(self)@.len(),
            t@.id == old(self)@[i as int].id,
        ensures
            final(self)@ =~= old(self)@.update(i as int, t@),
    {
        self.items.set(i, t);
    }
}

} // verus!
