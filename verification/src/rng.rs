use vstd::prelude::*;

use rand::Rng;

verus! {

/// Relies on rand's `thread_rng` and `Rng::gen_range` on a half-open
/// integer range: the sample lies in `[lo, hi)`; the range must be
/// non-empty, since `gen_range` panics on an empty one.
#[verifier::external_body]
pub(crate) fn rand_range_usize(lo: usize, hi: usize) -> (r: usize)
    requires
        lo < hi,
    ensures
        lo <= r < hi,
{
    rand::thread_rng().gen_range(lo..hi)
}

/// Relies on rand's `thread_rng` and `Rng::gen_range`, as above, for `i32`.
#[verifier::external_body]
pub(crate) fn rand_range_i32(lo: i32, hi: i32) -> (r: i32)
    requires
        lo < hi,
    ensures
        lo <= r < hi,
{
    rand::thread_rng().gen_range(lo..hi)
}

/// Relies on `rand::random::<bool>`: a coin flip. Nothing is promised of
/// which side comes up.
#[verifier::external_body]
pub(crate) fn rand_bool() -> (r: bool) {
    rand::random::<bool>()
}

} // verus!
