//! Small security helpers for application code.

use vstd::prelude::*;

verus! {

/// Bitwise fact behind the comparison loop: an accumulated difference stays zero
/// exactly when it was zero and the new pair of bytes is equal.
proof fn lemma_or_xor_zero(diff: u8, x: u8, y: u8)
    ensures
        (diff | (x ^ y)) == 0 <==> (diff == 0 && x == y),
{
    assert((diff | (x ^ y)) == 0 <==> (diff == 0 && x == y)) by (bit_vector);
}

/// Compares two byte strings in constant time relative to their contents.
///
/// Unequal lengths return `false` immediately; for equal lengths every byte pair
/// is inspected, so the time taken does not depend on where a mismatch occurs.
pub fn constant_time_eq(a: &[u8], b: &[u8]) -> (equal: bool)
    ensures
        equal == (a@ == b@),
{
    if a.len() != b.len() {
        return false;
    }
    let mut diff: u8 = 0;
    let mut i: usize = 0;
    while i < a.len()
        invariant
            a.len() == b.len(),
            0 <= i <= a.len(),
            (diff == 0) <==> (forall|j: int| 0 <= j < i ==> a@[j] == b@[j]),
        decreases a.len() - i,
    {
        proof {
            lemma_or_xor_zero(diff, a@[i as int], b@[i as int]);
        }
        diff = diff | (a[i] ^ b[i]);
        i = i + 1;
    }
    proof {
        if diff == 0 {
            assert(a@ =~= b@);
        }
    }
    diff == 0
}

} // verus!
