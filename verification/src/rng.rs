use vstd::prelude::*;

verus! {

/// Relies on rand::random_range, which draws a uniform value from the
/// half-open range `lo..hi` with the thread-local generator and panics
/// only on an empty range. Nothing is assumed of the draw beyond its
/// bounds: every caller handles every value in range.
#[verifier::external_body]
pub fn random_in_range(lo: i64, hi: i64) -> (r: i64)
    requires
        lo < hi,
    ensures
        lo <= r < hi,
{
    rand::random_range(lo..hi)
}

} // verus!
