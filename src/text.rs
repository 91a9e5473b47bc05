//! Byte-sequence search and copying helpers used by the embedding rules.
use vstd::prelude::*;

verus! {

/// `p` occurs in `s` starting at index `i`.
pub open spec fn match_at(s: Seq<u8>, p: Seq<u8>, i: int) -> bool {
    0 <= i && i + p.len() <= s.len() && s.subrange(i, i + p.len()) == p
}

/// The first index at or after `k` where `p` occurs in `s`.
pub open spec fn find_from(s: Seq<u8>, p: Seq<u8>, k: int) -> Option<int>
    decreases s.len() - k,
{
    if k < 0 || k >= s.len() || k + p.len() > s.len() {
        None
    } else if match_at(s, p, k) {
        Some(k)
    } else {
        find_from(s, p, k + 1)
    }
}

/// The first index where `p` occurs in `s`, if any.
pub open spec fn find_first(s: Seq<u8>, p: Seq<u8>) -> Option<int> {
    find_from(s, p, 0)
}

/// `find_from` returns exactly the least matching index at or after `k`.
pub proof fn lemma_find_from_characterized(s: Seq<u8>, p: Seq<u8>, k: int, r: Option<int>)
    requires
        0 <= k,
        p.len() > 0,
    ensures
        find_from(s, p, k) == r <==> (match r {
            Some(i) => k <= i && match_at(s, p, i) && forall|j: int|
                k <= j < i ==> !match_at(s, p, j),
            None => forall|j: int| k <= j ==> !match_at(s, p, j),
        }),
    decreases s.len() - k,
{
    if k >= s.len() || k + p.len() > s.len() {
    } else if match_at(s, p, k) {
    } else {
        lemma_find_from_characterized(s, p, k + 1, r);
        if r is None {
            if forall|j: int| k + 1 <= j ==> !match_at(s, p, j) {
                assert forall|j: int| k <= j implies !match_at(s, p, j) by {
                    if j != k {
                    }
                }
            }
        }
    }
}

/// Index of the first occurrence of `p` in `s`.
pub fn find_bytes(s: &Vec<u8>, p: &Vec<u8>) -> (r: Option<usize>)
    requires
        p@.len() > 0,
    ensures
        r matches Some(i) ==> find_first(s@, p@) == Some(i as int),
        r is None ==> find_first(s@, p@) is None,
{
    let n = s.len();
    let m = p.len();
    if m > n {
        return None;
    }
    let mut i: usize = 0;
    while i <= n - m
        invariant
            n == s@.len(),
            m == p@.len(),
            0 < m <= n,
            i <= n - m + 1,
            find_first(s@, p@) == find_from(s@, p@, i as int),
        decreases n + 1 - i,
    {
        let mut j: usize = 0;
        let mut same = true;
        while j < m
            invariant
                n == s@.len(),
                m == p@.len(),
                0 < m,
                i + m <= n,
                j <= m,
                same == (forall|t: int| 0 <= t < j ==> s@[i + t] == p@[t]),
            decreases m - j,
        {
            if s[i + j] != p[j] {
                same = false;
            }
            j = j + 1;
        }
        if same {
            assert(s@.subrange(i as int, i + m) =~= p@);
            assert(match_at(s@, p@, i as int));
            return Some(i);
        }
        assert(!match_at(s@, p@, i as int)) by {
            if match_at(s@, p@, i as int) {
                assert forall|t: int| 0 <= t < m implies s@[i + t] == p@[t] by {
                    assert(s@.subrange(i as int, i + m)[t] == s@[i + t]);
                }
            }
        }
        i = i + 1;
    }
    None
}

/// Appends `src[lo..hi]` to `out`.
pub fn append_range(out: &mut Vec<u8>, src: &Vec<u8>, lo: usize, hi: usize)
    requires
        lo <= hi <= src@.len(),
    ensures
        final(out)@ == old(out)@ + src@.subrange(lo as int, hi as int),
{
    let mut k: usize = lo;
    while k < hi
        invariant
            lo <= k <= hi,
            hi <= src@.len(),
            out@ == old(out)@ + src@.subrange(lo as int, k as int),
        decreases hi - k,
    {
        out.push(src[k]);
        assert(src@.subrange(lo as int, k + 1) =~= src@.subrange(lo as int, k as int).push(src@[k as int]));
        k = k + 1;
    }
}

/// Appends the whole of `src` to `out`.
pub fn append_all(out: &mut Vec<u8>, src: &Vec<u8>)
    ensures
        final(out)@ == old(out)@ + src@,
{
    append_range(out, src, 0, src.len());
    assert(src@.subrange(0, src@.len() as int) =~= src@);
}

} // verus!
