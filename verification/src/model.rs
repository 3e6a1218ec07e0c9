//! The marketplace data model: listings, transactions, and the values the
//! purchase saga exchanges with its caller.

use vstd::prelude::*;
use crate::identity::Identity;

verus! {

/// The status of a purchase attempt.
///
/// A transaction is created `Pending` and is advanced exactly once, to
/// `Completed` or to `Failed`; both are terminal. `Cancelled` belongs to the
/// status domain but no operation of this crate produces it.
#[derive(Clone, Copy, PartialEq, Eq, Structural, Debug)]
pub enum TransactionStatus {
    Pending,
    Completed,
    Failed,
    Cancelled,
}

/// An offer to sell one asset, identified by `id` and owned by `seller`.
#[derive(Debug)]
pub struct Listing {
    pub id: u64,
    pub asset_id: u64,
    pub seller: Identity,
    /// Price in currency subunits.
    pub price: u64,
    pub created_at: u64,
    pub updated_at: u64,
    pub is_active: bool,
    pub title: String,
    pub description: String,
    pub category: String,
    pub tags: Vec<String>,
}

/// The mathematical value of a [`Listing`].
#[verifier::ext_equal]
pub struct ListingView {
    pub id: u64,
    pub asset_id: u64,
    pub seller: Seq<u8>,
    pub price: u64,
    pub created_at: u64,
    pub updated_at: u64,
    pub is_active: bool,
    pub title: Seq<char>,
    pub description: Seq<char>,
    pub category: Seq<char>,
    pub tags: Seq<Seq<char>>,
}

/// The views of a sequence of strings.
pub open spec fn strings_view(s: Seq<String>) -> Seq<Seq<char>> {
    Seq::new(s.len(), |i: int| s[i]@)
}

impl View for Listing {
    type V = ListingView;

    open spec fn view(&self) -> ListingView {
        ListingView {
            id: self.id,
            asset_id: self.asset_id,
            seller: self.seller@,
            price: self.price,
            created_at: self.created_at,
            updated_at: self.updated_at,
            is_active: self.is_active,
            title: self.title@,
            description: self.description@,
            category: self.category@,
            tags: strings_view(self.tags@),
        }
    }
}

/// The record of one purchase attempt.
#[derive(Debug)]
pub struct Transaction {
    pub id: u64,
    pub asset_id: u64,
    pub listing_id: u64,
    pub seller: Identity,
    pub buyer: Identity,
    pub price: u64,
    pub transaction_time: u64,
    pub status: TransactionStatus,
}

/// The mathematical value of a [`Transaction`].
#[verifier::ext_equal]
pub struct TransactionView {
    pub id: u64,
    pub asset_id: u64,
    pub listing_id: u64,
    pub seller: Seq<u8>,
    pub buyer: Seq<u8>,
    pub price: u64,
    pub transaction_time: u64,
    pub status: TransactionStatus,
}

impl View for Transaction {
    type V = TransactionView;

    open spec fn view(&self) -> TransactionView {
        TransactionView {
            id: self.id,
            asset_id: self.asset_id,
            listing_id: self.listing_id,
            seller: self.seller@,
            buyer: self.buyer@,
            price: self.price,
            transaction_time: self.transaction_time,
            status: self.status,
        }
    }
}

/// What a caller supplies to create a listing.
pub struct ListingInput {
    pub asset_id: u64,
    pub price: u64,
    pub title: String,
    pub description: String,
    pub category: String,
    pub tags: Vec<String>,
}

/// Aggregate counters over the whole marketplace.
#[derive(Clone, Copy, PartialEq, Eq, Structural, Debug)]
pub struct MarketplaceStats {
    pub total_listings: u64,
    pub active_listings: u64,
    pub total_transactions: u64,
    /// Sum of the prices of all completed transactions, in currency subunits.
    pub total_volume: u64,
}

/// The error taxonomy of every marketplace operation.
#[derive(Debug)]
pub enum MarketError {
    /// The caller is anonymous where an identified caller is required.
    Unauthenticated,
    /// The caller is identified but not authorized for this entity.
    Forbidden,
    /// No entity with the given id exists.
    NotFound,
    /// The operation is invalid for the entity's current state.
    StateConflict,
    /// The registry service address is not configured.
    ConfigurationMissing,
    /// The registry rejected the ownership transfer, with its reason.
    TransferRejected(String),
    /// The remote call to the registry failed to complete.
    TransportError(String),
}

/// How the registry's ownership-transfer call ended.
///
/// A transport failure is ambiguous: the transfer may have succeeded on the
/// remote side even though no answer arrived. This crate surfaces that case
/// as a `Failed` transaction rather than resolving the ambiguity.
pub enum TransferOutcome {
    /// The registry confirmed the transfer.
    Success,
    /// The registry returned a business-level rejection, with its reason.
    Rejected(String),
    /// The call itself failed to complete, with a transport-level reason.
    TransportFailure(String),
}

/// The continuation handed back by the prepare step of a purchase: the
/// pending transaction record and the registry address to call.
#[derive(Debug)]
pub struct PendingPurchase {
    pub transaction: Transaction,
    pub registry_address: String,
}

/// The views of a sequence of listings.
pub open spec fn listing_views(s: Seq<Listing>) -> Seq<ListingView> {
    Seq::new(s.len(), |i: int| s[i]@)
}

/// The views of a sequence of transactions.
pub open spec fn transaction_views(s: Seq<Transaction>) -> Seq<TransactionView> {
    Seq::new(s.len(), |i: int| s[i]@)
}

/// Clones a vector of strings, element for element.
fn clone_strings(v: &Vec<String>) -> (r: Vec<String>)
    ensures
        r@ == v@,
{
    let mut r: Vec<String> = Vec::new();
    let n = v.len();
    let mut i: usize = 0;
    while i < n
        invariant
            n == v.len(),
            i <= n,
            r@ == v@.subrange(0, i as int),
        decreases n - i,
    {
        r.push(v[i].clone());
        proof {
            assert(r@ =~= v@.subrange(0, i + 1));
        }
        i = i + 1;
    }
    proof {
        assert(r@ =~= v@);
    }
    r
}

impl Clone for Listing {
    fn clone(&self) -> (r: Self)
        ensures
            r@ == self@,
    {
        let r = Listing {
            id: self.id,
            asset_id: self.asset_id,
            seller: self.seller.clone(),
            price: self.price,
            created_at: self.created_at,
            updated_at: self.updated_at,
            is_active: self.is_active,
            title: self.title.clone(),
            description: self.description.clone(),
            category: self.category.clone(),
            tags: clone_strings(&self.tags),
        };
        proof {
            assert(r@ =~= self@);
        }
        r
    }
}

impl Clone for Transaction {
    fn clone(&self) -> (r: Self)
        ensures
            r@ == self@,
    {
        let r = Transaction {
            id: self.id,
            asset_id: self.asset_id,
            listing_id: self.listing_id,
            seller: self.seller.clone(),
            buyer: self.buyer.clone(),
            price: self.price,
            transaction_time: self.transaction_time,
            status: self.status,
        };
        proof {
            assert(r@ =~= self@);
        }
        r
    }
}

} // verus!
