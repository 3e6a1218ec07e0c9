//! Case-insensitive text matching over listings, resting on the standard
//! library's case folding and substring search.

use vstd::prelude::*;
use crate::model::{Listing, ListingView};

verus! {

/// The lowercase form of a character sequence, as the standard library's
/// case folding computes it: a function of the characters alone.
pub uninterp spec fn lower_of(s: Seq<char>) -> Seq<char>;

/// Relies on str::to_lowercase, whose result depends on the characters of
/// the input alone.
#[verifier::external_body]
pub fn lowercase(s: &String) -> (r: String)
    ensures
        r@ == lower_of(s@),
{
    s.to_lowercase()
}

/// Whether `needle` occurs contiguously inside `hay`.
pub open spec fn contains_seq(hay: Seq<char>, needle: Seq<char>) -> bool {
    exists|i: int|
        0 <= i && i + needle.len() <= hay.len() && #[trigger] hay.subrange(i, i + needle.len())
            == needle
}

/// Relies on str::contains, which tests whether the pattern occurs as a
/// substring of the slice.
#[verifier::external_body]
pub fn string_contains(hay: &String, needle: &String) -> (r: bool)
    ensures
        r == contains_seq(hay@, needle@),
{
    hay.contains(needle.as_str())
}

/// Whether a listing matches a lowercase query: the query occurs in the
/// lowercase form of its title, description, category, or one of its tags.
pub open spec fn listing_matches(l: ListingView, q: Seq<char>) -> bool {
    ||| contains_seq(lower_of(l.title), q)
    ||| contains_seq(lower_of(l.description), q)
    ||| contains_seq(lower_of(l.category), q)
    ||| exists|i: int| 0 <= i < l.tags.len() && contains_seq(lower_of(l.tags[i]), q)
}

/// Whether the given listing matches the lowercase query `q`.
pub fn listing_matches_query(l: &Listing, q: &String) -> (r: bool)
    ensures
        r == listing_matches(l@, q@),
{
    let title_lower = lowercase(&l.title);
    if string_contains(&title_lower, q) {
        return true;
    }
    let description_lower = lowercase(&l.description);
    if string_contains(&description_lower, q) {
        return true;
    }
    let category_lower = lowercase(&l.category);
    if string_contains(&category_lower, q) {
        return true;
    }
    let n = l.tags.len();
    let mut i: usize = 0;
    while i < n
        invariant
            n == l.tags.len(),
            i <= n,
            forall|k: int| 0 <= k < i ==> !contains_seq(lower_of(l@.tags[k]), q@),
        decreases n - i,
    {
        let tag_lower = lowercase(&l.tags[i]);
        if string_contains(&tag_lower, q) {
            proof {
                assert(l@.tags[i as int] == l.tags@[i as int]@);
            }
            return true;
        }
        i = i + 1;
    }
    proof {
        assert(!(exists|i: int| 0 <= i < l@.tags.len() && contains_seq(lower_of(l@.tags[i]), q@)));
    }
    false
}

} // verus!
