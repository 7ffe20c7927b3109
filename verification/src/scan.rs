//! Searching a byte string for the first occurrence of another.

use vstd::prelude::*;

verus! {

/// Whether `needle` stands in `hay` at offset `i`.
pub open spec fn occurs_at(hay: Seq<u8>, needle: Seq<u8>, i: int) -> bool {
    0 <= i && i + needle.len() <= hay.len() && hay.subrange(i, i + needle.len()) == needle
}

/// Whether `i` is the least offset at which `needle` stands in `hay`.
pub open spec fn is_first_at(hay: Seq<u8>, needle: Seq<u8>, i: int) -> bool {
    occurs_at(hay, needle, i) && forall|j: int| 0 <= j < i ==> !occurs_at(hay, needle, j)
}

/// The least offset at which `needle` stands in `hay`, if it occurs at all.
pub open spec fn first_occurrence(hay: Seq<u8>, needle: Seq<u8>) -> Option<int> {
    if exists|i: int| occurs_at(hay, needle, i) {
        Some(choose|i: int| is_first_at(hay, needle, i))
    } else {
        None
    }
}

/// The least element of a non-empty set of offsets exists: if `needle`
/// occurs at `i`, it has a first occurrence at or before `i`.
pub proof fn lemma_first_exists(hay: Seq<u8>, needle: Seq<u8>, i: int)
    requires
        occurs_at(hay, needle, i),
    ensures
        exists|k: int| 0 <= k <= i && is_first_at(hay, needle, k),
    decreases i,
{
    if exists|j: int| 0 <= j < i && occurs_at(hay, needle, j) {
        let j = choose|j: int| 0 <= j < i && occurs_at(hay, needle, j);
        lemma_first_exists(hay, needle, j);
    } else {
        assert(is_first_at(hay, needle, i));
    }
}

/// A first occurrence is the first occurrence: the offset is unique.
pub proof fn lemma_first_occurrence_is(hay: Seq<u8>, needle: Seq<u8>, i: int)
    requires
        is_first_at(hay, needle, i),
    ensures
        first_occurrence(hay, needle) == Some(i),
{
    let k = choose|k: int| is_first_at(hay, needle, k);
    assert(is_first_at(hay, needle, k));
    if k < i {
        assert(!occurs_at(hay, needle, k));
    } else if i < k {
        assert(!occurs_at(hay, needle, i));
    }
}

/// What `first_occurrence` returns is a first occurrence.
pub proof fn lemma_first_occurrence_some(hay: Seq<u8>, needle: Seq<u8>)
    requires
        first_occurrence(hay, needle) is Some,
    ensures
        is_first_at(hay, needle, first_occurrence(hay, needle)->0),
{
    let i = choose|i: int| occurs_at(hay, needle, i);
    lemma_first_exists(hay, needle, i);
}

/// `memchr::memmem::find`: the offset of the first occurrence of `needle`
/// in `hay`, or `None` where it does not occur. An empty needle occurs at
/// offset zero.
#[verifier::external_body]
fn memmem_find(hay: &[u8], needle: &[u8]) -> (r: Option<usize>)
    ensures
        match r {
            Some(i) => is_first_at(hay@, needle@, i as int),
            None => forall|j: int| !occurs_at(hay@, needle@, j),
        },
{
    memchr::memmem::find(hay, needle)
}

/// Finds the first occurrence of `needle` in `hay`.
pub fn find_first(hay: &[u8], needle: &[u8]) -> (r: Option<usize>)
    ensures
        match r {
            Some(i) => first_occurrence(hay@, needle@) == Some(i as int),
            None => first_occurrence(hay@, needle@) is None,
        },
{
    let r = memmem_find(hay, needle);
    proof {
        match r {
            Some(i) => {
                lemma_first_occurrence_is(hay@, needle@, i as int);
            },
            None => {},
        }
    }
    r
}

/// Whether two byte strings are the same.
pub fn same_bytes(a: &[u8], b: &[u8]) -> (r: bool)
    ensures
        r == (a@ == b@),
{
    if a.len() != b.len() {
        return false;
    }
    let mut i: usize = 0;
    while i < a.len()
        invariant
            i <= a@.len(),
            a@.len() == b@.len(),
            forall|j: int| 0 <= j < i ==> a@[j] == b@[j],
        decreases a@.len() - i,
    {
        if a[i] != b[i] {
            return false;
        }
        i += 1;
    }
    assert(a@ =~= b@);
    true
}

} // verus!
