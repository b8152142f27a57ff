use vstd::prelude::*;

verus! {

/// Relies on `rand::random_range` over an inclusive integer range: the
/// thread-local generator returns a value of the range, and the range
/// `lo..=hi` is non-empty (so the call cannot panic) exactly when
/// `lo <= hi`.  Nothing more is assumed of the draw.
#[verifier::external_body]
pub(crate) fn rand_in_range(lo: i64, hi: i64) -> (r: i64)
    requires
        lo <= hi,
    ensures
        lo <= r <= hi,
{
    rand::random_range(lo..=hi)
}

} // verus!
