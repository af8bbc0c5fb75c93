use vstd::prelude::*;

verus! {

/// Relies on `rand::random_range` over `0..n`: one uniform draw from the
/// thread-local, cryptographically secure generator (ChaCha-based). Nothing
/// can be promised about which value comes back beyond its bound; the
/// function panics only on an empty range, which the precondition rules out.
#[verifier::external_body]
pub(crate) fn random_below(n: usize) -> (r: usize)
    requires
        n >= 1,
    ensures
        r < n,
{
    rand::random_range(0..n)
}

} // verus!
