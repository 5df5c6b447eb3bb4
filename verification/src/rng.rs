//! Trusted boundary to the `rand` crate: the library's only sources of
//! randomness.  Each contract states only what holds of every possible
//! outcome of the draw.

use vstd::prelude::*;
use rand::Rng;
use rand::seq::SliceRandom;
use rand::thread_rng;

verus! {

/// Relies on `rand::seq::SliceRandom::shuffle`, a Fisher-Yates shuffle: it
/// reorders the slice in place and neither adds, drops nor changes an
/// element, so the multiset of characters is preserved.
#[verifier::external_body]
pub(crate) fn shuffle_chars(v: &mut Vec<char>)
    ensures
        final(v)@.to_multiset() == old(v)@.to_multiset(),
{
    v.shuffle(&mut thread_rng());
}

/// Relies on `rand::Rng::gen_range` over `1..=365`: it returns a uniformly
/// drawn value inside that inclusive range, and panics only on an empty
/// range, which this one is not.
#[verifier::external_body]
pub(crate) fn random_day_of_year() -> (d: u32)
    ensures
        1 <= d <= 365,
{
    thread_rng().gen_range(1u32..=365u32)
}

} // verus!
