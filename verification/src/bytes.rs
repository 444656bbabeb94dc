//! Plain byte-sequence helpers shared by the parsers and the registry.

use vstd::prelude::*;

verus! {

/// Byte-wise equality of two slices.
///
/// This comparison short-circuits and is therefore only for values that are
/// not secret (registry lookups); secret values are compared through
/// `crypto::ct_bytes_eq`.
pub fn bytes_eq(a: &[u8], b: &[u8]) -> (r: bool)
    ensures
        r == (a@ == b@),
{
    if a.len() != b.len() {
        assert(a@ != b@) by {
            assert(a@.len() != b@.len());
        }
        return false;
    }
    let mut i: usize = 0;
    while i < a.len()
        invariant
            i <= a.len(),
            a.len() == b.len(),
            forall|j: int| 0 <= j < i ==> a@[j] == b@[j],
        decreases a.len() - i,
    {
        if a[i] != b[i] {
            return false;
        }
        i += 1;
    }
    proof {
        assert(a@ =~= b@);
    }
    true
}

} // verus!
