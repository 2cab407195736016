//! Cosine similarity between two strings, computed exactly.
//!
//! The similarity of two strings is the cosine of the angle between their
//! character-frequency vectors (see [`crate::counts`]): the dot product of
//! the two vectors divided by the product of their Euclidean norms, and 0
//! when either norm is 0.  The value lies in `[0, 1]`: 1 means the two
//! strings hold the same bag of characters, 0 means they share none.
//!
//! Floating point is never used.  A [`Similarity`] keeps the exact integer
//! ingredients (`dot`, `qa`, `qb`) of the value `dot / sqrt(qa * qb)`, and
//! every comparison against a rational threshold is decided by integer
//! arithmetic on their squares.

use vstd::prelude::*;

verus! {

use crate::counts::char_counts;
use crate::counts::char_class;
use crate::counts::class_count;
use crate::counts::dot_chars;
use crate::counts::dot_upto;
use crate::counts::lemma_dot_upto_le_totals;
use crate::counts::lemma_dot_upto_sym;
use crate::counts::lemma_dot_with_empty;
use crate::counts::lemma_norm_sq_pos;
use crate::counts::lemma_sum_upto_mono;
use crate::counts::lemma_token_total_le_len;
use crate::counts::norm_sq;
use crate::counts::sum_upto;
use crate::counts::token_total;
use crate::wide::prod_eq;
use vstd::arithmetic::mul::lemma_mul_upper_bound;
use vstd::arithmetic::mul::lemma_mul_nonzero;

/// The exact ingredients of a cosine similarity value.
///
/// A `Similarity` stands for the real number `dot / sqrt(qa * qb)`, or 0
/// when `qa * qb == 0`: `dot` is the frequency-vector dot product of the
/// two strings, `qa` and `qb` their squared norms.
#[derive(Clone, Copy, PartialEq, Eq, Structural, Debug)]
pub struct Similarity {
    /// Dot product of the two frequency vectors.
    pub dot: u128,
    /// Squared norm of the first string's frequency vector.
    pub qa: u128,
    /// Squared norm of the second string's frequency vector.
    pub qb: u128,
}

/// The similarity of `a` and `b` is exactly 1: the strings hold the same
/// non-empty bag of counted characters, so `dot^2 == qa * qb != 0`.
pub open spec fn sim_is_one(a: Seq<char>, b: Seq<char>) -> bool {
    &&& dot_chars(a, b) * dot_chars(a, b) == norm_sq(a) * norm_sq(b)
    &&& norm_sq(a) * norm_sq(b) != 0
}

/// The similarity of `a` and `b` is exactly 0: either no characters are
/// shared, or one string has no counted characters at all.
pub open spec fn sim_is_zero(a: Seq<char>, b: Seq<char>) -> bool {
    dot_chars(a, b) == 0 || norm_sq(a) * norm_sq(b) == 0
}

/// Finds the cosine similarity between two strings.
///
/// The returned [`Similarity`] holds the exact dot product and squared
/// norms of the two character-frequency vectors, from which any comparison
/// of the value `dot / sqrt(qa * qb)` can be decided exactly.
pub fn cosine_similarity(text1: &str, text2: &str) -> (r: Similarity)
    ensures
        r.dot == dot_chars(text1@, text2@),
        r.qa == norm_sq(text1@),
        r.qb == norm_sq(text2@),
        r.dot <= text1@.len() * text2@.len(),
        r.qa <= text1@.len() * text1@.len(),
        r.qb <= text2@.len() * text2@.len(),
{
    let ca = char_counts(text1);
    let cb = char_counts(text2);
    sim_of_counts(&ca, &cb, Ghost(text1@), Ghost(text2@))
}

/// Finds the cosine similarity between two character vectors; the same
/// value [`cosine_similarity`] gives for strings of those characters.
pub fn cosine_similarity_chars(a: &Vec<char>, b: &Vec<char>) -> (r: Similarity)
    ensures
        r.dot == dot_chars(a@, b@),
        r.qa == norm_sq(a@),
        r.qb == norm_sq(b@),
        r.dot <= a@.len() * b@.len(),
        r.qa <= a@.len() * a@.len(),
        r.qb <= b@.len() * b@.len(),
{
    let ca = crate::counts::char_counts_vec(a);
    let cb = crate::counts::char_counts_vec(b);
    sim_of_counts(&ca, &cb, Ghost(a@), Ghost(b@))
}

/// Combines two frequency vectors into the similarity ingredients.
fn sim_of_counts(ca: &Vec<u64>, cb: &Vec<u64>, sa: Ghost<Seq<char>>, sb: Ghost<Seq<char>>) -> (r:
    Similarity)
    requires
        ca@.len() == 36,
        cb@.len() == 36,
        forall|j: int| 0 <= j < 36 ==> ca@[j] == class_count(sa@, j),
        forall|j: int| 0 <= j < 36 ==> cb@[j] == class_count(sb@, j),
        sa@.len() <= usize::MAX,
        sb@.len() <= usize::MAX,
    ensures
        r.dot == dot_chars(sa@, sb@),
        r.qa == norm_sq(sa@),
        r.qb == norm_sq(sb@),
        r.dot <= sa@.len() * sb@.len(),
        r.qa <= sa@.len() * sa@.len(),
        r.qb <= sb@.len() * sb@.len(),
{
    proof {
        lemma_token_total_le_len(sa@);
        lemma_token_total_le_len(sb@);
        assert(usize::MAX <= u64::MAX);
    }
    let mut dot: u128 = 0;
    let mut qa: u128 = 0;
    let mut qb: u128 = 0;
    let mut k: usize = 0;
    while k < 36
        invariant
            k <= 36,
            ca@.len() == 36,
            cb@.len() == 36,
            forall|j: int| 0 <= j < 36 ==> ca@[j] == class_count(sa@, j),
            forall|j: int| 0 <= j < 36 ==> cb@[j] == class_count(sb@, j),
            token_total(sa@) <= u64::MAX,
            token_total(sb@) <= u64::MAX,
            dot == dot_upto(sa@, sb@, k as int),
            qa == dot_upto(sa@, sa@, k as int),
            qb == dot_upto(sb@, sb@, k as int),
        decreases 36 - k,
    {
        proof {
            lemma_step_bound(sa@, sb@, k as int);
            lemma_step_bound(sa@, sa@, k as int);
            lemma_step_bound(sb@, sb@, k as int);
        }
        let xa: u128 = ca[k] as u128;
        let xb: u128 = cb[k] as u128;
        dot = dot + xa * xb;
        qa = qa + xa * xa;
        qb = qb + xb * xb;
        k = k + 1;
    }
    proof {
        lemma_dot_upto_le_totals(sa@, sb@, 36);
        lemma_dot_upto_le_totals(sa@, sa@, 36);
        lemma_dot_upto_le_totals(sb@, sb@, 36);
        lemma_mul_upper_bound(
            token_total(sa@) as int,
            sa@.len() as int,
            token_total(sb@) as int,
            sb@.len() as int,
        );
        lemma_mul_upper_bound(
            token_total(sa@) as int,
            sa@.len() as int,
            token_total(sa@) as int,
            sa@.len() as int,
        );
        lemma_mul_upper_bound(
            token_total(sb@) as int,
            sb@.len() as int,
            token_total(sb@) as int,
            sb@.len() as int,
        );
    }
    Similarity { dot, qa, qb }
}

/// The similarity of `a` and `b` lies strictly above three quarters:
/// `dot / sqrt(qa * qb) > 3/4`, squared away to `16 * dot^2 > 9 * qa * qb`
/// (when `qa * qb == 0` the value is 0 and the bound fails, which the
/// squared form gives as well).  This is the acceptance test of the
/// institution-affiliation heuristic.
pub open spec fn sim_exceeds_three_quarters(a: Seq<char>, b: Seq<char>) -> bool {
    16 * dot_chars(a, b) * dot_chars(a, b) > 9 * (norm_sq(a) * norm_sq(b))
}

/// One accumulation step of the scorer stays within `u128`.
proof fn lemma_step_bound(a: Seq<char>, b: Seq<char>, k: int)
    requires
        0 <= k < 36,
        token_total(a) <= u64::MAX,
        token_total(b) <= u64::MAX,
    ensures
        dot_upto(a, b, k) + class_count(a, k) * class_count(b, k) <= u128::MAX,
        dot_upto(a, b, k) + class_count(a, k) * class_count(b, k) == dot_upto(a, b, k + 1),
{
    lemma_dot_upto_le_totals(a, b, k + 1);
    lemma_sum_upto_mono(a, k + 1, 36);
    lemma_sum_upto_mono(b, k + 1, 36);
    let p = sum_upto(a, k + 1) * sum_upto(b, k + 1);
    assert(p <= token_total(a) * token_total(b)) by (nonlinear_arith)
        requires
            sum_upto(a, k + 1) <= token_total(a),
            sum_upto(b, k + 1) <= token_total(b),
            p == sum_upto(a, k + 1) * sum_upto(b, k + 1),
    ;
    assert(token_total(a) * token_total(b) <= u128::MAX) by (nonlinear_arith)
        requires
            token_total(a) <= u64::MAX,
            token_total(b) <= u64::MAX,
            u128::MAX == (u64::MAX as int) * (u64::MAX as int) + 2 * (u64::MAX as int),
    ;
}

impl Similarity {
    /// Whether the similarity value is exactly 1.
    ///
    /// For the result of [`cosine_similarity`] on `a` and `b` this decides
    /// [`sim_is_one`]`(a, b)`.
    pub fn is_one(&self) -> (r: bool)
        ensures
            r == (self.dot * self.dot == self.qa * self.qb && self.qa * self.qb != 0),
    {
        proof {
            if self.qa != 0 && self.qb != 0 {
                lemma_mul_nonzero(self.qa as int, self.qb as int);
            }
        }
        let nonzero = self.qa != 0 && self.qb != 0;
        prod_eq(self.dot, self.dot, self.qa, self.qb) && nonzero
    }

    /// Whether the similarity value is exactly 0.
    ///
    /// For the result of [`cosine_similarity`] on `a` and `b` this decides
    /// [`sim_is_zero`]`(a, b)`.
    pub fn is_zero(&self) -> (r: bool)
        ensures
            r == (self.dot == 0 || self.qa * self.qb == 0),
    {
        proof {
            if self.qa != 0 && self.qb != 0 {
                lemma_mul_nonzero(self.qa as int, self.qb as int);
            }
        }
        self.dot == 0 || self.qa == 0 || self.qb == 0
    }

    /// Whether the similarity value strictly exceeds three quarters.
    ///
    /// For the result of [`cosine_similarity`] on `a` and `b` this
    /// decides [`sim_exceeds_three_quarters`]`(a, b)`; the ingredient
    /// bounds hold whenever both inputs have at most 255 characters.
    pub fn exceeds_three_quarters(&self) -> (r: bool)
        requires
            self.dot <= 65025,
            self.qa <= 65025,
            self.qb <= 65025,
        ensures
            r == (16 * self.dot * self.dot > 9 * (self.qa * self.qb)),
    {
        proof {
            assert(16 * self.dot * self.dot <= 16 * 65025 * 65025 && self.qa * self.qb <= 65025
                * 65025) by (nonlinear_arith)
                requires
                    self.dot <= 65025,
                    self.qa <= 65025,
                    self.qb <= 65025,
            ;
        }
        16 * self.dot * self.dot > 9 * (self.qa * self.qb)
    }
}

/// Law: every string with at least one counted character is perfectly
/// similar to itself — `similarity(a, a) == 1`.
///
/// A string without counted characters (for example the empty string) is
/// excluded: there the zero-norm guard makes the value 0, not 1.
pub proof fn lemma_similarity_self(a: Seq<char>)
    requires
        token_total(a) > 0,
    ensures
        sim_is_one(a, a),
{
    lemma_norm_sq_pos(a);
    lemma_mul_nonzero(norm_sq(a) as int, norm_sq(a) as int);
}

/// Law: similarity is symmetric — swapping the two strings changes
/// neither the dot product nor the squared norms, so the value is the
/// same.
pub proof fn lemma_similarity_sym(a: Seq<char>, b: Seq<char>)
    ensures
        dot_chars(a, b) == dot_chars(b, a),
        sim_is_one(a, b) == sim_is_one(b, a),
        sim_is_zero(a, b) == sim_is_zero(b, a),
{
    lemma_dot_upto_sym(a, b, 36);
    assert(norm_sq(a) * norm_sq(b) == norm_sq(b) * norm_sq(a)) by (nonlinear_arith);
}

/// Law: against a string with no counted characters the similarity is 0 —
/// in particular `similarity(a, "") == 0` for every `a`.
pub proof fn lemma_similarity_empty(a: Seq<char>, b: Seq<char>)
    requires
        token_total(b) == 0,
    ensures
        sim_is_zero(a, b),
{
    lemma_dot_with_empty(a, b);
}

} // verus!
