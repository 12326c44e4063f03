//! Exact substring search over sequences of characters.

use vstd::prelude::*;

verus! {

/// `needle` stands in `hay` at offset `k`.
pub open spec fn occurs_at(hay: Seq<char>, needle: Seq<char>, k: int) -> bool {
    &&& 0 <= k
    &&& k + needle.len() <= hay.len()
    &&& hay.subrange(k, k + needle.len()) == needle
}

/// The least offset at or after `k` at which `needle` stands in `hay`.
pub open spec fn first_from(hay: Seq<char>, needle: Seq<char>, k: int) -> Option<int>
    decreases hay.len() - k + 1,
{
    if k < 0 || k + needle.len() > hay.len() {
        None
    } else if occurs_at(hay, needle, k) {
        Some(k)
    } else {
        first_from(hay, needle, k + 1)
    }
}

/// The greatest offset at or before `k` at which `needle` stands in `hay`.
pub open spec fn last_upto(hay: Seq<char>, needle: Seq<char>, k: int) -> Option<int>
    decreases k + 1,
{
    if k < 0 {
        None
    } else if occurs_at(hay, needle, k) {
        Some(k)
    } else {
        last_upto(hay, needle, k - 1)
    }
}

/// The leftmost occurrence of `needle` in `hay`.
pub open spec fn first_occurrence(hay: Seq<char>, needle: Seq<char>) -> Option<int> {
    first_from(hay, needle, 0)
}

/// The rightmost occurrence of `needle` in `hay`.
pub open spec fn last_occurrence(hay: Seq<char>, needle: Seq<char>) -> Option<int> {
    last_upto(hay, needle, hay.len() - needle.len())
}

/// What `first_from` finds is an occurrence, and nothing occurs between
/// the starting offset and it.
pub proof fn lemma_first_from(hay: Seq<char>, needle: Seq<char>, k: int)
    requires
        0 <= k,
    ensures
        match first_from(hay, needle, k) {
            Some(m) => k <= m && occurs_at(hay, needle, m) && forall|j: int|
                k <= j < m ==> !occurs_at(hay, needle, j),
            None => forall|j: int| k <= j ==> !occurs_at(hay, needle, j),
        },
    decreases hay.len() - k + 1,
{
    if k + needle.len() > hay.len() {
    } else if occurs_at(hay, needle, k) {
    } else {
        lemma_first_from(hay, needle, k + 1);
    }
}

/// What `last_upto` finds is an occurrence, and nothing occurs between it
/// and the starting offset.
pub proof fn lemma_last_upto(hay: Seq<char>, needle: Seq<char>, k: int)
    ensures
        match last_upto(hay, needle, k) {
            Some(m) => m <= k && occurs_at(hay, needle, m) && forall|j: int|
                m < j <= k ==> !occurs_at(hay, needle, j),
            None => forall|j: int| j <= k ==> !occurs_at(hay, needle, j),
        },
    decreases k + 1,
{
    if k < 0 {
    } else if occurs_at(hay, needle, k) {
    } else {
        lemma_last_upto(hay, needle, k - 1);
    }
}

/// Whether `needle` stands in `hay` at offset `k`.
pub fn matches_at(hay: &[char], needle: &[char], k: usize) -> (b: bool)
    ensures
        b == occurs_at(hay@, needle@, k as int),
{
    let n = hay.len();
    let m = needle.len();
    if k > n || m > n - k {
        return false;
    }
    let mut j: usize = 0;
    while j < m
        invariant
            n == hay@.len(),
            m == needle@.len(),
            k + m <= n,
            j <= m,
            forall|i: int| 0 <= i < j ==> hay@[k + i] == needle@[i],
        decreases m - j,
    {
        if hay[k + j] != needle[j] {
            assert(hay@.subrange(k as int, k + m)[j as int] == hay@[k + j]);
            return false;
        }
        j += 1;
    }
    assert(hay@.subrange(k as int, k + m) =~= needle@);
    true
}

/// The leftmost occurrence of `needle` in `hay` at or after `from`.
pub fn find_first(hay: &[char], needle: &[char], from: usize) -> (r: Option<usize>)
    ensures
        match r {
            Some(m) => first_from(hay@, needle@, from as int) == Some(m as int),
            None => first_from(hay@, needle@, from as int) is None,
        },
{
    let n = hay.len();
    let m = needle.len();
    if m > n {
        return None;
    }
    if from > n - m {
        return None;
    }
    let mut k: usize = from;
    loop
        invariant
            n == hay@.len(),
            m == needle@.len(),
            m <= n,
            from <= k <= n - m,
            first_from(hay@, needle@, from as int) == first_from(hay@, needle@, k as int),
        decreases n - k,
    {
        if matches_at(hay, needle, k) {
            return Some(k);
        }
        if k == n - m {
            assert(first_from(hay@, needle@, k + 1) is None);
            return None;
        }
        k += 1;
    }
}

/// The rightmost occurrence of `needle` in `hay`.
pub fn find_last(hay: &[char], needle: &[char]) -> (r: Option<usize>)
    ensures
        match r {
            Some(m) => last_occurrence(hay@, needle@) == Some(m as int),
            None => last_occurrence(hay@, needle@) is None,
        },
{
    let n = hay.len();
    let m = needle.len();
    if m > n {
        return None;
    }
    let mut k: usize = n - m;
    loop
        invariant
            n == hay@.len(),
            m == needle@.len(),
            k <= n - m,
            last_occurrence(hay@, needle@) == last_upto(hay@, needle@, k as int),
        decreases k,
    {
        if matches_at(hay, needle, k) {
            return Some(k);
        }
        if k == 0 {
            assert(last_upto(hay@, needle@, -1) is None);
            return None;
        }
        k -= 1;
    }
}

} // verus!
