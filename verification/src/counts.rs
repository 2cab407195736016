//! Character-bag tokenization for the similarity scorer.
//!
//! Both strings handed to the scorer are read as bags of canonical tokens:
//! a token is a single ASCII alphanumeric character, case folded to lower
//! case.  Every other character is ignored.  A bag is represented by its
//! frequency vector over the 36 token classes (`a`..`z` then `0`..`9`).

use vstd::prelude::*;

verus! {

/// The canonical token class of a character: `a`..`z` map to `0..26`
/// (upper case folds onto lower case), `0`..`9` map to `26..36`, and every
/// other character carries no class and is ignored by the scorer.
pub open spec fn char_class(c: char) -> Option<int> {
    let u = c as u32;
    if 97 <= u && u <= 122 {  // 'a'..='z'
        Some((u - 97) as int)
    } else if 65 <= u && u <= 90 {  // 'A'..='Z'
        Some((u - 65) as int)
    } else if 48 <= u && u <= 57 {  // '0'..='9'
        Some(26 + (u - 48) as int)
    } else {
        None
    }
}

/// Whether `c` carries a token class below `k`.
pub open spec fn class_below(c: char, k: int) -> bool {
    match char_class(c) {
        Some(j) => j < k,
        None => false,
    }
}

/// How many characters of `s` fall in token class `k`.
pub open spec fn class_count(s: Seq<char>, k: int) -> nat
    decreases s.len(),
{
    if s.len() == 0 {
        0
    } else {
        class_count(s.drop_last(), k) + if char_class(s.last()) == Some(k) {
            1nat
        } else {
            0nat
        }
    }
}

/// The number of counted characters of `s` in the classes below `k`.
pub open spec fn sum_upto(s: Seq<char>, k: int) -> nat
    decreases k,
{
    if k <= 0 {
        0
    } else {
        sum_upto(s, k - 1) + class_count(s, k - 1)
    }
}

/// The total number of counted (ASCII alphanumeric) characters of `s`.
pub open spec fn token_total(s: Seq<char>) -> nat {
    sum_upto(s, 36)
}

/// The dot product of the frequency vectors of `a` and `b`, restricted to
/// the classes below `k`.
pub open spec fn dot_upto(a: Seq<char>, b: Seq<char>, k: int) -> nat
    decreases k,
{
    if k <= 0 {
        0
    } else {
        dot_upto(a, b, k - 1) + class_count(a, k - 1) * class_count(b, k - 1)
    }
}

/// The dot product of the full frequency vectors of `a` and `b`.
pub open spec fn dot_chars(a: Seq<char>, b: Seq<char>) -> nat {
    dot_upto(a, b, 36)
}

/// The squared Euclidean norm of the frequency vector of `a`.
pub open spec fn norm_sq(a: Seq<char>) -> nat {
    dot_chars(a, a)
}

/// A character's class, when it has one, lies in `0..36`.
pub proof fn lemma_char_class_range(c: char)
    ensures
        match char_class(c) {
            Some(j) => 0 <= j < 36,
            None => true,
        },
{
}

/// Counting one more character extends the class count by its own class.
pub proof fn lemma_class_count_push(s: Seq<char>, c: char, k: int)
    ensures
        class_count(s.push(c), k) == class_count(s, k) + if char_class(c) == Some(k) {
            1int
        } else {
            0int
        },
{
    assert(s.push(c).drop_last() =~= s);
    assert(s.push(c).last() == c);
}

/// A class count never exceeds the number of characters.
pub proof fn lemma_class_count_le_len(s: Seq<char>, k: int)
    ensures
        class_count(s, k) <= s.len(),
    decreases s.len(),
{
    if s.len() > 0 {
        lemma_class_count_le_len(s.drop_last(), k);
    }
}

/// Counting one more character raises `sum_upto` by one exactly when the
/// character's class lies below `k`.
pub proof fn lemma_sum_upto_push(s: Seq<char>, c: char, k: int)
    ensures
        sum_upto(s.push(c), k) == sum_upto(s, k) + if class_below(c, k) {
            1int
        } else {
            0int
        },
    decreases k,
{
    if k > 0 {
        lemma_sum_upto_push(s, c, k - 1);
        lemma_class_count_push(s, c, k - 1);
        lemma_char_class_range(c);
    }
}

/// The token total never exceeds the number of characters.
pub proof fn lemma_token_total_le_len(s: Seq<char>)
    ensures
        token_total(s) <= s.len(),
    decreases s.len(),
{
    if s.len() == 0 {
        lemma_sum_upto_zero(s, 36);
    } else {
        let d = s.drop_last();
        lemma_token_total_le_len(d);
        lemma_sum_upto_push(d, s.last(), 36);
        assert(d.push(s.last()) =~= s);
    }
}

/// On the empty sequence every partial sum is zero.
proof fn lemma_sum_upto_zero(s: Seq<char>, k: int)
    requires
        s.len() == 0,
    ensures
        sum_upto(s, k) == 0,
    decreases k,
{
    if k > 0 {
        lemma_sum_upto_zero(s, k - 1);
    }
}

/// If no character of `s` is counted, every class count is zero.
pub proof fn lemma_empty_class_counts(s: Seq<char>, k: int)
    requires
        token_total(s) == 0,
        0 <= k < 36,
    ensures
        class_count(s, k) == 0,
{
    lemma_sum_upto_mono(s, k + 1, 36);
    assert(sum_upto(s, k + 1) == sum_upto(s, k) + class_count(s, k));
}

/// `sum_upto` grows with its bound.
pub proof fn lemma_sum_upto_mono(s: Seq<char>, k1: int, k2: int)
    requires
        k1 <= k2,
    ensures
        sum_upto(s, k1) <= sum_upto(s, k2),
    decreases k2 - k1,
{
    if k1 < k2 {
        lemma_sum_upto_mono(s, k1, k2 - 1);
    }
}

/// If some character of `s` is counted, some class below 36 is non-empty.
pub proof fn lemma_total_pos_exists_class(s: Seq<char>)
    requires
        token_total(s) > 0,
    ensures
        exists|k: int| 0 <= k < 36 && class_count(s, k) > 0,
{
    lemma_sum_upto_pos(s, 36);
}

proof fn lemma_sum_upto_pos(s: Seq<char>, k: int)
    requires
        sum_upto(s, k) > 0,
    ensures
        exists|j: int| 0 <= j < k && class_count(s, j) > 0,
    decreases k,
{
    if sum_upto(s, k - 1) > 0 {
        lemma_sum_upto_pos(s, k - 1);
        let j = choose|j: int| 0 <= j < k - 1 && class_count(s, j) > 0;
        assert(0 <= j < k && class_count(s, j) > 0);
    } else {
        assert(class_count(s, k - 1) > 0);
    }
}

/// The dot product is symmetric in its two strings.
pub proof fn lemma_dot_upto_sym(a: Seq<char>, b: Seq<char>, k: int)
    ensures
        dot_upto(a, b, k) == dot_upto(b, a, k),
    decreases k,
{
    if k > 0 {
        lemma_dot_upto_sym(a, b, k - 1);
    }
}

/// The partial dot product is bounded by the product of the partial totals.
pub proof fn lemma_dot_upto_le_totals(a: Seq<char>, b: Seq<char>, k: int)
    ensures
        dot_upto(a, b, k) <= sum_upto(a, k) * sum_upto(b, k),
    decreases k,
{
    if k > 0 {
        lemma_dot_upto_le_totals(a, b, k - 1);
        let sa = sum_upto(a, k - 1);
        let sb = sum_upto(b, k - 1);
        let ca = class_count(a, k - 1);
        let cb = class_count(b, k - 1);
        assert((sa + ca) * (sb + cb) >= sa * sb + ca * cb) by (nonlinear_arith)
            requires
                sa >= 0,
                sb >= 0,
                ca >= 0,
                cb >= 0,
        ;
    }
}

/// Every single term is a lower bound for the partial dot product.
pub proof fn lemma_dot_upto_ge_term(a: Seq<char>, b: Seq<char>, j: int, k: int)
    requires
        0 <= j < k,
    ensures
        dot_upto(a, b, k) >= class_count(a, j) * class_count(b, j),
    decreases k,
{
    if j < k - 1 {
        lemma_dot_upto_ge_term(a, b, j, k - 1);
    }
}

/// A string with at least one counted character has a positive norm.
pub proof fn lemma_norm_sq_pos(a: Seq<char>)
    requires
        token_total(a) > 0,
    ensures
        norm_sq(a) >= 1,
{
    lemma_total_pos_exists_class(a);
    let k = choose|k: int| 0 <= k < 36 && class_count(a, k) > 0;
    lemma_dot_upto_ge_term(a, a, k, 36);
    let c = class_count(a, k);
    assert(c * c >= 1) by (nonlinear_arith)
        requires
            c >= 1,
    ;
}

/// Against a string with no counted characters every dot product is zero.
pub proof fn lemma_dot_with_empty(a: Seq<char>, b: Seq<char>)
    requires
        token_total(b) == 0,
    ensures
        dot_chars(a, b) == 0,
        norm_sq(b) == 0,
{
    lemma_dot_empty_upto(a, b, 36);
    lemma_dot_empty_upto(b, b, 36);
}

proof fn lemma_dot_empty_upto(a: Seq<char>, b: Seq<char>, k: int)
    requires
        token_total(b) == 0,
        k <= 36,
    ensures
        dot_upto(a, b, k) == 0,
    decreases k,
{
    if k > 0 {
        lemma_dot_empty_upto(a, b, k - 1);
        lemma_empty_class_counts(b, k - 1);
    }
}

/// The exec classifier: mirrors [`char_class`].
pub fn class_of_char(c: char) -> (r: Option<usize>)
    ensures
        match r {
            Some(k) => k < 36 && char_class(c) == Some(k as int),
            None => char_class(c) is None,
        },
{
    let u = c as u32;
    if 97 <= u && u <= 122 {
        Some((u - 97) as usize)
    } else if 65 <= u && u <= 90 {
        Some((u - 65) as usize)
    } else if 48 <= u && u <= 57 {
        Some((26 + (u - 48)) as usize)
    } else {
        None
    }
}

/// Builds the frequency vector of a character vector over the 36 token
/// classes.
pub fn char_counts_vec(s: &Vec<char>) -> (counts: Vec<u64>)
    ensures
        counts@.len() == 36,
        forall|k: int| 0 <= k < 36 ==> counts@[k] == class_count(s@, k),
        s@.len() <= usize::MAX,
{
    let n: usize = s.len();
    let mut counts: Vec<u64> = Vec::new();
    let mut z: usize = 0;
    while z < 36
        invariant
            counts@.len() == z,
            z <= 36,
            forall|k: int| 0 <= k < z ==> counts@[k] == 0,
        decreases 36 - z,
    {
        counts.push(0u64);
        z = z + 1;
    }
    let mut i: usize = 0;
    while i < n
        invariant
            i <= n,
            n == s@.len(),
            counts@.len() == 36,
            forall|k: int| 0 <= k < 36 ==> counts@[k] == class_count(s@.take(i as int), k),
        decreases n - i,
    {
        let c = s[i];
        proof {
            assert(s@.take(i as int).push(s@[i as int]) =~= s@.take(i + 1));
        }
        match class_of_char(c) {
            Some(k) => {
                proof {
                    lemma_class_count_le_len(s@.take(i as int), k as int);
                    assert forall|j: int| 0 <= j < 36 implies class_count(
                        s@.take(i + 1),
                        j,
                    ) == class_count(s@.take(i as int), j) + if char_class(s@[i as int]) == Some(j) {
                        1int
                    } else {
                        0int
                    } by {
                        lemma_class_count_push(s@.take(i as int), s@[i as int], j);
                    }
                }
                let cur = counts[k];
                counts.set(k, cur + 1);
            },
            None => {
                proof {
                    assert forall|j: int| 0 <= j < 36 implies class_count(
                        s@.take(i + 1),
                        j,
                    ) == class_count(s@.take(i as int), j) by {
                        lemma_class_count_push(s@.take(i as int), s@[i as int], j);
                    }
                }
            },
        }
        i = i + 1;
    }
    proof {
        assert(s@.take(n as int) =~= s@);
    }
    counts
}

/// Builds the frequency vector of `s` over the 36 token classes.
pub fn char_counts(s: &str) -> (counts: Vec<u64>)
    ensures
        counts@.len() == 36,
        forall|k: int| 0 <= k < 36 ==> counts@[k] == class_count(s@, k),
        s@.len() <= usize::MAX,
{
    let n: usize = s.unicode_len();
    let mut counts: Vec<u64> = Vec::new();
    let mut z: usize = 0;
    while z < 36
        invariant
            counts@.len() == z,
            z <= 36,
            forall|k: int| 0 <= k < z ==> counts@[k] == 0,
        decreases 36 - z,
    {
        counts.push(0u64);
        z = z + 1;
    }
    let mut i: usize = 0;
    while i < n
        invariant
            i <= n,
            n == s@.len(),
            counts@.len() == 36,
            forall|k: int| 0 <= k < 36 ==> counts@[k] == class_count(s@.take(i as int), k),
        decreases n - i,
    {
        let c = s.get_char(i);
        proof {
            assert(s@.take(i as int).push(s@[i as int]) =~= s@.take(i + 1));
        }
        match class_of_char(c) {
            Some(k) => {
                proof {
                    lemma_class_count_le_len(s@.take(i as int), k as int);
                    assert forall|j: int| 0 <= j < 36 implies class_count(
                        s@.take(i + 1),
                        j,
                    ) == class_count(s@.take(i as int), j) + if char_class(s@[i as int]) == Some(j) {
                        1int
                    } else {
                        0int
                    } by {
                        lemma_class_count_push(s@.take(i as int), s@[i as int], j);
                    }
                }
                let cur = counts[k];
                counts.set(k, cur + 1);
            },
            None => {
                proof {
                    assert forall|j: int| 0 <= j < 36 implies class_count(
                        s@.take(i + 1),
                        j,
                    ) == class_count(s@.take(i as int), j) by {
                        lemma_class_count_push(s@.take(i as int), s@[i as int], j);
                    }
                }
            },
        }
        i = i + 1;
    }
    proof {
        assert(s@.take(n as int) =~= s@);
    }
    counts
}

} // verus!
