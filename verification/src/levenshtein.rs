//! String comparison by edit distance.
//!
//! The Levenshtein distance is a secondary similarity utility, not used
//! by the primary matching path (which works on character bags); it is
//! proved against the textbook recurrence.

use vstd::prelude::*;

verus! {

/// The edit distance between the first `i` characters of `a` and the
/// first `j` characters of `b`: the least number of single-character
/// insertions, deletions and substitutions turning one into the other,
/// by the textbook recurrence.
pub open spec fn lev(a: Seq<char>, b: Seq<char>, i: int, j: int) -> int
    decreases i + j,
{
    if i <= 0 {
        j
    } else if j <= 0 {
        i
    } else {
        let cost: int = if a[i - 1] == b[j - 1] {
            0
        } else {
            1
        };
        let d1 = lev(a, b, i - 1, j) + 1;
        let d2 = lev(a, b, i, j - 1) + 1;
        let d3 = lev(a, b, i - 1, j - 1) + cost;
        if d1 <= d2 && d1 <= d3 {
            d1
        } else if d2 <= d3 {
            d2
        } else {
            d3
        }
    }
}

/// The edit distance between two strings.
pub open spec fn spec_levenshtein(a: Seq<char>, b: Seq<char>) -> int {
    lev(a, b, a.len() as int, b.len() as int)
}

/// The distance is non-negative and never exceeds the longer prefix.
pub proof fn lemma_lev_bounds(a: Seq<char>, b: Seq<char>, i: int, j: int)
    requires
        0 <= i,
        0 <= j,
    ensures
        0 <= lev(a, b, i, j),
        lev(a, b, i, j) <= if i > j {
            i
        } else {
            j
        },
    decreases i + j,
{
    if i > 0 && j > 0 {
        lemma_lev_bounds(a, b, i - 1, j);
        lemma_lev_bounds(a, b, i, j - 1);
        lemma_lev_bounds(a, b, i - 1, j - 1);
    }
}

/// Calculates the Levenshtein distance between two strings.
pub fn levenshtn(a: &str, b: &str) -> (r: usize)
    ensures
        r == spec_levenshtein(a@, b@),
{
    let la = a.unicode_len();
    let lb = b.unicode_len();
    if la == 0 {
        return lb;
    }
    if lb == 0 {
        return la;
    }
    let mut cache: Vec<usize> = Vec::new();
    while cache.len() <= la
        invariant
            cache@.len() <= la + 1,
            forall|t: int| 0 <= t < cache@.len() ==> cache@[t] == t,
        decreases la + 1 - cache@.len(),
    {
        let t = cache.len();
        cache.push(t);
    }
    proof {
        assert(forall|t: int| 0 <= t <= la ==> cache@[t] == lev(a@, b@, t, 0));
    }
    let mut j: usize = 0;
    while j < lb
        invariant
            1 <= la == a@.len(),
            1 <= lb == b@.len(),
            j <= lb,
            cache@.len() == la + 1,
            forall|t: int| 0 <= t <= la ==> cache@[t] == lev(a@, b@, t, j as int),
        decreases lb - j,
    {
        let jj = j + 1;
        let bj = b.get_char(j);
        let mut prev_diag = cache[0];
        cache.set(0, jj);
        let mut i: usize = 0;
        while i < la
            invariant
                1 <= la == a@.len(),
                1 <= lb == b@.len(),
                j < lb,
                jj == j + 1,
                i <= la,
                bj == b@[j as int],
                cache@.len() == la + 1,
                forall|t: int| 0 <= t <= i ==> cache@[t] == lev(a@, b@, t, jj as int),
                forall|t: int| i < t <= la ==> cache@[t] == lev(a@, b@, t, j as int),
                prev_diag == lev(a@, b@, i as int, j as int),
            decreases la - i,
        {
            let ii = i + 1;
            let ai = a.get_char(i);
            let cost: usize = if ai == bj {
                0
            } else {
                1
            };
            let up = cache[ii];
            let left = cache[i];
            let diag = prev_diag;
            proof {
                lemma_lev_bounds(a@, b@, ii as int, j as int);
                lemma_lev_bounds(a@, b@, i as int, jj as int);
                lemma_lev_bounds(a@, b@, i as int, j as int);
                lemma_lev_bounds(a@, b@, ii as int, jj as int);
            }
            let m1 = if left < up {
                left
            } else {
                up
            };
            let m2 = if m1 < usize::MAX {
                m1 + 1
            } else {
                usize::MAX
            };
            let m3 = diag + cost;
            let v = if m2 < m3 {
                m2
            } else {
                m3
            };
            proof {
                assert(a@[ii - 1] == ai && b@[jj - 1] == bj);
                assert(v == lev(a@, b@, ii as int, jj as int));
            }
            prev_diag = up;
            cache.set(ii, v);
            i = ii;
        }
        j = jj;
    }
    cache[la]
}

} // verus!
