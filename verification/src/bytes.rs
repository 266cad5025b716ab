//! Searching and comparing byte strings.
//!
//! Paths are byte strings. The functions here find a byte in a slice and
//! measure the common prefix of two slices; their contracts are stated over
//! the sequences that the slices hold.

use vstd::prelude::*;

verus! {

/// The index of the first occurrence of `b` in `s`, or `s.len()` where there is none.
pub open spec fn first_index_of(s: Seq<u8>, b: u8) -> int
    decreases s.len(),
{
    if s.len() == 0 {
        0
    } else if s[0] == b {
        0
    } else {
        1 + first_index_of(s.skip(1), b)
    }
}

/// The index of the last occurrence of `b` in `s`, or `-1` where there is none.
pub open spec fn last_index_of(s: Seq<u8>, b: u8) -> int
    decreases s.len(),
{
    if s.len() == 0 {
        -1
    } else if s.last() == b {
        s.len() - 1
    } else {
        last_index_of(s.drop_last(), b)
    }
}

/// The length of the longest common prefix of `a` and `b`.
pub open spec fn mismatch(a: Seq<u8>, b: Seq<u8>) -> int
    decreases a.len(),
{
    if a.len() == 0 || b.len() == 0 || a[0] != b[0] {
        0
    } else {
        1 + mismatch(a.skip(1), b.skip(1))
    }
}

/// `first_index_of` is the one index below which `b` does not occur and at
/// which it does, or the length where it occurs nowhere.
pub proof fn lemma_first_index_of(s: Seq<u8>, b: u8, i: int)
    requires
        0 <= i <= s.len(),
        forall|j: int| 0 <= j < i ==> s[j] != b,
        i < s.len() ==> s[i] == b,
    ensures
        first_index_of(s, b) == i,
    decreases s.len(),
{
    if s.len() != 0 && s[0] != b {
        let t = s.skip(1);
        assert forall|j: int| 0 <= j < i - 1 implies t[j] != b by {
            assert(t[j] == s[j + 1]);
        }
        lemma_first_index_of(t, b, i - 1);
    }
}

/// What `first_index_of` returns lies within the sequence and marks the first occurrence.
pub proof fn lemma_first_index_of_bounds(s: Seq<u8>, b: u8)
    ensures
        0 <= first_index_of(s, b) <= s.len(),
        forall|j: int| 0 <= j < first_index_of(s, b) ==> s[j] != b,
        first_index_of(s, b) < s.len() ==> s[first_index_of(s, b)] == b,
    decreases s.len(),
{
    if s.len() != 0 && s[0] != b {
        let t = s.skip(1);
        lemma_first_index_of_bounds(t, b);
        assert forall|j: int| 0 <= j < first_index_of(s, b) implies s[j] != b by {
            if j > 0 {
                assert(t[j - 1] == s[j]);
            }
        }
    }
}

/// `last_index_of` is the one index above which `b` does not occur and at
/// which it does, or `-1` where it occurs nowhere.
pub proof fn lemma_last_index_of(s: Seq<u8>, b: u8, i: int)
    requires
        -1 <= i < s.len(),
        forall|j: int| i < j < s.len() ==> s[j] != b,
        0 <= i ==> s[i] == b,
    ensures
        last_index_of(s, b) == i,
    decreases s.len(),
{
    if s.len() != 0 && s.last() != b {
        let t = s.drop_last();
        assert forall|j: int| i < j < t.len() implies t[j] != b by {
            assert(t[j] == s[j]);
        }
        lemma_last_index_of(t, b, i);
    }
}

/// What `last_index_of` returns lies within the sequence and marks the last occurrence.
pub proof fn lemma_last_index_of_bounds(s: Seq<u8>, b: u8)
    ensures
        -1 <= last_index_of(s, b) < s.len(),
        forall|j: int| last_index_of(s, b) < j < s.len() ==> s[j] != b,
        0 <= last_index_of(s, b) ==> s[last_index_of(s, b)] == b,
    decreases s.len(),
{
    if s.len() != 0 && s.last() != b {
        let t = s.drop_last();
        lemma_last_index_of_bounds(t, b);
        assert forall|j: int| last_index_of(s, b) < j < s.len() implies s[j] != b by {
            if j < t.len() {
                assert(t[j] == s[j]);
            }
        }
    }
}

/// `mismatch` is the one index below which the two sequences agree and at
/// which they differ or one of them ends.
pub proof fn lemma_mismatch(a: Seq<u8>, b: Seq<u8>, i: int)
    requires
        0 <= i <= a.len(),
        i <= b.len(),
        forall|j: int| 0 <= j < i ==> a[j] == b[j],
        i < a.len() && i < b.len() ==> a[i] != b[i],
    ensures
        mismatch(a, b) == i,
    decreases a.len(),
{
    if i > 0 {
        let s = a.skip(1);
        let t = b.skip(1);
        assert(a[0] == b[0]);
        assert forall|j: int| 0 <= j < i - 1 implies s[j] == t[j] by {
            assert(s[j] == a[j + 1]);
            assert(t[j] == b[j + 1]);
        }
        lemma_mismatch(s, t, i - 1);
    }
}

/// What `mismatch` returns lies within both sequences, which agree below it
/// and differ at it where both go on.
pub proof fn lemma_mismatch_bounds(a: Seq<u8>, b: Seq<u8>)
    ensures
        0 <= mismatch(a, b) <= a.len(),
        mismatch(a, b) <= b.len(),
        forall|j: int| 0 <= j < mismatch(a, b) ==> a[j] == b[j],
        mismatch(a, b) < a.len() && mismatch(a, b) < b.len() ==> a[mismatch(a, b)] != b[mismatch(
            a,
            b,
        )],
    decreases a.len(),
{
    if !(a.len() == 0 || b.len() == 0 || a[0] != b[0]) {
        let s = a.skip(1);
        let t = b.skip(1);
        lemma_mismatch_bounds(s, t);
        assert forall|j: int| 0 <= j < mismatch(a, b) implies a[j] == b[j] by {
            if j > 0 {
                assert(s[j - 1] == a[j]);
                assert(t[j - 1] == b[j]);
            }
        }
        let k = mismatch(s, t);
        if k < s.len() && k < t.len() {
            assert(s[k] == a[k + 1]);
            assert(t[k] == b[k + 1]);
        }
    }
}

/// The common prefix of two sequences does not depend on their order.
pub proof fn lemma_mismatch_symmetric(a: Seq<u8>, b: Seq<u8>)
    ensures
        mismatch(a, b) == mismatch(b, a),
{
    lemma_mismatch_bounds(a, b);
    lemma_mismatch(b, a, mismatch(a, b));
}

/// `a` is the start of `b`, and shorter than it.
pub open spec fn is_proper_prefix(a: Seq<u8>, b: Seq<u8>) -> bool {
    a.len() < b.len() && a == b.take(a.len() as int)
}

/// The common prefix of a sequence and of one that it starts is the shorter one.
pub proof fn lemma_mismatch_of_prefix(a: Seq<u8>, b: Seq<u8>)
    requires
        is_proper_prefix(a, b),
    ensures
        mismatch(a, b) == a.len(),
        mismatch(b, a) == a.len(),
{
    lemma_mismatch(a, b, a.len() as int);
    lemma_mismatch(b, a, a.len() as int);
}

/// Finds the first occurrence of `b` in `s`.
pub fn position(s: &[u8], b: u8) -> (r: Option<usize>)
    ensures
        match r {
            Some(i) => i < s@.len() && first_index_of(s@, b) == i,
            None => first_index_of(s@, b) == s@.len(),
        },
{
    let mut i: usize = 0;
    while i < s.len()
        invariant
            i <= s@.len(),
            forall|j: int| 0 <= j < i ==> s@[j] != b,
        decreases s@.len() - i,
    {
        if s[i] == b {
            proof {
                lemma_first_index_of(s@, b, i as int);
            }
            return Some(i);
        }
        i = i + 1;
    }
    proof {
        lemma_first_index_of(s@, b, i as int);
    }
    None
}

/// Finds the last occurrence of `b` in `s`.
pub fn rposition(s: &[u8], b: u8) -> (r: Option<usize>)
    ensures
        match r {
            Some(i) => i < s@.len() && last_index_of(s@, b) == i,
            None => last_index_of(s@, b) == -1,
        },
{
    let mut i: usize = s.len();
    while i > 0
        invariant
            i <= s@.len(),
            forall|j: int| i <= j < s@.len() ==> s@[j] != b,
        decreases i,
    {
        i = i - 1;
        if s[i] == b {
            proof {
                lemma_last_index_of(s@, b, i as int);
            }
            return Some(i);
        }
    }
    proof {
        lemma_last_index_of(s@, b, -1);
    }
    None
}

/// Measures the common prefix of `a` and `b`.
pub fn common_prefix_len(a: &[u8], b: &[u8]) -> (r: usize)
    ensures
        r == mismatch(a@, b@),
{
    let mut i: usize = 0;
    while i < a.len() && i < b.len() && a[i] == b[i]
        invariant
            i <= a@.len(),
            i <= b@.len(),
            forall|j: int| 0 <= j < i ==> a@[j] == b@[j],
        decreases a@.len() - i,
    {
        i = i + 1;
    }
    proof {
        lemma_mismatch(a@, b@, i as int);
    }
    i
}

/// Tells whether two slices hold the same bytes.
pub fn bytes_eq(a: &[u8], b: &[u8]) -> (r: bool)
    ensures
        r == (a@ == b@),
{
    if a.len() != b.len() {
        return false;
    }
    let k = common_prefix_len(a, b);
    proof {
        lemma_mismatch_bounds(a@, b@);
        if k == a@.len() {
            assert(a@ =~= b@);
        }
    }
    k == a.len()
}

} // verus!
