//! Byte-string helpers: the value model stores text as UTF-8 byte vectors,
//! whose equality and lexicographic byte order coincide with the equality
//! and code-point order of the text they encode.

use vstd::prelude::*;

verus! {

/// Lexicographic comparison of two byte sequences from position `i` on.
pub open spec fn spec_bytes_cmp_from(a: Seq<u8>, b: Seq<u8>, i: int) -> core::cmp::Ordering
    decreases a.len() - i,
{
    if i >= a.len() && i >= b.len() {
        core::cmp::Ordering::Equal
    } else if i >= a.len() {
        core::cmp::Ordering::Less
    } else if i >= b.len() {
        core::cmp::Ordering::Greater
    } else if a[i] < b[i] {
        core::cmp::Ordering::Less
    } else if a[i] > b[i] {
        core::cmp::Ordering::Greater
    } else {
        spec_bytes_cmp_from(a, b, i + 1)
    }
}

/// Lexicographic comparison of two byte sequences.
pub open spec fn spec_bytes_cmp(a: Seq<u8>, b: Seq<u8>) -> core::cmp::Ordering {
    spec_bytes_cmp_from(a, b, 0)
}

fn bytes_cmp_from(a: &[u8], b: &[u8], i: usize) -> (r: core::cmp::Ordering)
    requires
        i <= a@.len(),
        i <= b@.len(),
    ensures
        r == spec_bytes_cmp_from(a@, b@, i as int),
    decreases a@.len() - i,
{
    if i >= a.len() && i >= b.len() {
        core::cmp::Ordering::Equal
    } else if i >= a.len() {
        core::cmp::Ordering::Less
    } else if i >= b.len() {
        core::cmp::Ordering::Greater
    } else if a[i] < b[i] {
        core::cmp::Ordering::Less
    } else if a[i] > b[i] {
        core::cmp::Ordering::Greater
    } else {
        bytes_cmp_from(a, b, i + 1)
    }
}

pub fn bytes_cmp(a: &[u8], b: &[u8]) -> (r: core::cmp::Ordering)
    ensures
        r == spec_bytes_cmp(a@, b@),
{
    bytes_cmp_from(a, b, 0)
}

pub proof fn lemma_bytes_cmp_from_eq(a: Seq<u8>, b: Seq<u8>, i: int)
    requires
        0 <= i <= a.len(),
        i <= b.len(),
        forall|j: int| 0 <= j < i ==> a[j] == b[j],
    ensures
        spec_bytes_cmp_from(a, b, i) == core::cmp::Ordering::Equal <==> a == b,
    decreases a.len() - i,
{
    if i >= a.len() && i >= b.len() {
        assert(a =~= b);
    } else if i >= a.len() || i >= b.len() {
        assert(a.len() != b.len());
    } else if a[i] == b[i] {
        lemma_bytes_cmp_from_eq(a, b, i + 1);
    } else {
        assert(a[i] != b[i]);
    }
}

/// The comparison reports `Equal` exactly on equal byte sequences.
pub proof fn lemma_bytes_cmp_eq(a: Seq<u8>, b: Seq<u8>)
    ensures
        spec_bytes_cmp(a, b) == core::cmp::Ordering::Equal <==> a == b,
{
    lemma_bytes_cmp_from_eq(a, b, 0);
}

pub fn bytes_eq(a: &[u8], b: &[u8]) -> (r: bool)
    ensures
        r == (a@ == b@),
{
    if a.len() != b.len() {
        return false;
    }
    let mut i: usize = 0;
    while i < a.len()
        invariant
            a@.len() == b@.len(),
            i <= a@.len(),
            forall|j: int| 0 <= j < i ==> a@[j] == b@[j],
        decreases a@.len() - i,
    {
        if a[i] != b[i] {
            return false;
        }
        i = i + 1;
    }
    proof {
        assert(a@ =~= b@);
    }
    true
}

/// An owned copy of a byte vector.
pub fn copy_bytes(v: &[u8]) -> (r: Vec<u8>)
    ensures
        r@ == v@,
{
    let mut r: Vec<u8> = Vec::new();
    let mut i: usize = 0;
    while i < v.len()
        invariant
            i <= v@.len(),
            r@ == v@.subrange(0, i as int),
        decreases v@.len() - i,
    {
        r.push(v[i]);
        proof {
            assert(r@ =~= v@.subrange(0, i + 1 as int));
        }
        i = i + 1;
    }
    proof {
        assert(v@.subrange(0, v@.len() as int) =~= v@);
    }
    r
}

} // verus!
