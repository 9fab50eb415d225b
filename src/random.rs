//! Random values: shuffles, tokens and delays.
use vstd::prelude::*;

use core::ops::Range;
use core::time::Duration;

use ::rand::seq::SliceRandom;
use ::rand::RngExt;

verus! {

/// An ASCII letter or digit.
pub open spec fn is_alphanumeric(c: char) -> bool {
    ('a' <= c && c <= 'z') || ('A' <= c && c <= 'Z') || ('0' <= c && c <= '9')
}

/// Relies on `SliceRandom::shuffle` of rand: a permutation of the items, in place.
#[verifier::external_body]
pub fn shuffle<T>(vec: &mut [T])
    ensures
        final(vec)@.to_multiset() == old(vec)@.to_multiset(),
{
    let mut rng = ::rand::rng();
    vec.shuffle(&mut rng);
}

/// Relies on rand's `Alphanumeric` distribution: each character is drawn from
/// `A-Z`, `a-z` and `0-9`.
#[verifier::external_body]
pub fn string(length: usize) -> (r: String)
    ensures
        r@.len() == length,
        forall|i: int| 0 <= i < r@.len() ==> is_alphanumeric(#[trigger] r@[i]),
{
    ::rand::rng().sample_iter(&::rand::distr::Alphanumeric).take(length).map(char::from).collect()
}

/// Relies on `rand::random_range`: a value of the half-open range, which must
/// not be empty.
#[verifier::external_body]
fn random_below(start: u64, end: u64) -> (r: u64)
    requires
        start < end,
    ensures
        start <= r < end,
{
    ::rand::random_range(start..end)
}

/// Relies on `Duration::from_secs`.
#[verifier::external_body]
fn duration_from_secs(secs: u64) -> Duration {
    Duration::from_secs(secs)
}

/// A random number of seconds from the range, which must not be empty.
pub fn random_secs(range: Range<u64>) -> (r: u64)
    requires
        range.start < range.end,
    ensures
        range.start <= r < range.end,
{
    random_below(range.start, range.end)
}

/// A random duration of whole seconds from the range, which must not be empty.
pub fn secs(range: Range<u64>) -> Duration
    requires
        range.start < range.end,
{
    duration_from_secs(random_secs(range))
}

} // verus!
