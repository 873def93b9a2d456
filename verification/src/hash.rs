//! Hashes and trie roots.

use vstd::prelude::*;

verus! {

/// A 256-bit hash or trie root, most significant byte first.
pub type B256 = [u8; 32];

/// Whether two hashes are the same.
pub fn b256_eq(a: &B256, b: &B256) -> (equal: bool)
    ensures
        equal == (*a == *b),
{
    let mut i: usize = 0;
    while i < 32
        invariant
            i <= 32,
            forall|j: int| 0 <= j < i ==> a[j] == b[j],
        decreases 32 - i,
    {
        if a[i] != b[i] {
            return false;
        }
        i += 1;
    }
    assert(*a =~= *b);
    true
}

/// Two hashes are the same if and only if they agree on every byte.
pub proof fn law_same_bytes(a: B256, b: B256, equal: bool)
    requires
        call_ensures(b256_eq, (&a, &b), equal),
    ensures
        equal <==> forall|i: int| 0 <= i < 32 ==> #[trigger] a[i] == b[i],
{
    if forall|i: int| 0 <= i < 32 ==> #[trigger] a[i] == b[i] {
        assert(a =~= b);
    }
}

} // verus!
