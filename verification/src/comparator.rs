//! The weighted field comparator of the matching engine.
//!
//! A claim and an identification are compared field by field: the cosine
//! similarity of the holder names contributes up to 0.600 of the total
//! score, the similarity of the courses up to 0.250, and a single exact
//! date equality (entry year against the validity start, or else
//! graduation year against the validity end — first available pair wins)
//! adds 0.075, half of the 0.150 set aside for the temporal signal.  The
//! pair is accepted when the total reaches the calibrated threshold 0.540.
//!
//! All scores are rationals with square roots in the denominator, so the
//! threshold test is decided exactly on integers: the inequality is
//! multiplied out and squared twice ([`score_accepts`]), never rounded.

use vstd::prelude::*;

verus! {

use crate::cosine::Similarity;
use crate::cosine::cosine_similarity;
use crate::counts::dot_chars;
use crate::counts::dot_upto;
use crate::counts::lemma_dot_upto_sym;
use crate::counts::norm_sq;
use crate::dates::Date;
use crate::wide::prod_le;
use vstd::arithmetic::mul::lemma_mul_upper_bound;

/// Thousandths of the total score a perfect name similarity contributes.
pub const NAME_WEIGHT: u128 = 600;

/// Thousandths of the total score a perfect course similarity contributes.
pub const COURSE_WEIGHT: u128 = 250;

/// Thousandths of the total score set aside for the temporal signal; an
/// exact date-field equality contributes half of it.
pub const TIME_WEIGHT: u128 = 150;

/// Thousandths added by an exact date-field equality (half of the
/// temporal weight).
pub const DATE_BONUS: u128 = TIME_WEIGHT / 2;

/// Acceptance threshold, in thousandths of the total score.
pub const THRESHOLD: u128 = 540;

/// The longest string (in characters) the exact comparator accepts; field
/// validation of the registry keeps every stored text within this bound,
/// which in turn keeps the squared threshold arithmetic inside `u128`.
pub const MAX_TEXT_LEN: usize = 255;

/// Whether `600*s1 + 250*s2 + bonus >= 540`, in thousandths, where
/// `s1 = d1 / sqrt(u)` and `s2 = d2 / sqrt(v)` (each 0 when its
/// denominator is 0, the zero-norm guard of the scorer).
///
/// The square roots are eliminated exactly: with `x = 600*d1`,
/// `y = 250*d2` and `c` the threshold less the date bonus, the condition
/// `x/sqrt(u) + y/sqrt(v) >= c` is multiplied by `sqrt(u*v)` and squared,
/// giving `l + 2*x*y*sqrt(u*v) >= r` with `l = x^2*v + y^2*u` and
/// `r = c^2*u*v`; that holds iff `l >= r` or `(r-l)^2 <= 4*x^2*y^2*u*v`.
/// All quantities are non-negative, so each squaring is an equivalence.
pub open spec fn score_accepts(d1: int, u: int, d2: int, v: int, bonus: bool) -> bool {
    let x = 600 * d1;
    let y = 250 * d2;
    let c = if bonus {
        540 - 75int
    } else {
        540int
    };
    if u == 0 && v == 0 {
        false
    } else if u == 0 {
        y * y >= c * c * v
    } else if v == 0 {
        x * x >= c * c * u
    } else {
        let l = x * x * v + y * y * u;
        let r = c * c * (u * v);
        l >= r || (r - l) * (r - l) <= 4 * (x * x) * (y * y) * (u * v)
    }
}

/// Whether the date bonus applies: the validity start and the entry year,
/// when both are present, must be exactly equal; only when one of those
/// two is absent does the pair (validity end, graduation year) get its
/// turn, under the same rule.  No second chance: present-but-unequal
/// first-pair dates yield no bonus even if the second pair is equal.
pub open spec fn spec_time_bonus(
    entry_year: Option<Date>,
    graduation_year: Option<Date>,
    valid_from: Option<Date>,
    valid_till: Option<Date>,
) -> bool {
    if valid_from is Some && entry_year is Some {
        valid_from == entry_year
    } else if valid_till is Some && graduation_year is Some {
        valid_till == graduation_year
    } else {
        false
    }
}

/// Whether the four text fields and the date bonus together reach the
/// acceptance threshold.
pub open spec fn spec_fields_match(
    claim_name: Seq<char>,
    idt_name: Seq<char>,
    claim_course: Seq<char>,
    idt_course: Seq<char>,
    bonus: bool,
) -> bool {
    score_accepts(
        dot_chars(claim_name, idt_name) as int,
        (norm_sq(claim_name) * norm_sq(idt_name)) as int,
        dot_chars(claim_course, idt_course) as int,
        (norm_sq(claim_course) * norm_sq(idt_course)) as int,
        bonus,
    )
}

/// Law: the comparator is symmetric.  Swapping which record plays the
/// claim and which the identification — and with it the field extraction
/// — leaves the decision unchanged, for the same weights and bonus.
pub proof fn lemma_fields_match_symmetric(
    claim_name: Seq<char>,
    idt_name: Seq<char>,
    claim_course: Seq<char>,
    idt_course: Seq<char>,
    bonus: bool,
)
    ensures
        spec_fields_match(claim_name, idt_name, claim_course, idt_course, bonus)
            == spec_fields_match(idt_name, claim_name, idt_course, claim_course, bonus),
{
    lemma_dot_upto_sym(claim_name, idt_name, 36);
    lemma_dot_upto_sym(claim_course, idt_course, 36);
    assert(norm_sq(claim_name) * norm_sq(idt_name) == norm_sq(idt_name) * norm_sq(claim_name))
        by (nonlinear_arith);
    assert(norm_sq(claim_course) * norm_sq(idt_course) == norm_sq(idt_course) * norm_sq(
        claim_course,
    )) by (nonlinear_arith);
}

/// Compares the four text fields of a (claim, identification) pair and
/// applies the date bonus, deciding the acceptance threshold exactly.
pub fn fields_match(
    claim_name: &str,
    idt_name: &str,
    claim_course: &str,
    idt_course: &str,
    bonus: bool,
) -> (r: bool)
    requires
        claim_name@.len() <= MAX_TEXT_LEN,
        idt_name@.len() <= MAX_TEXT_LEN,
        claim_course@.len() <= MAX_TEXT_LEN,
        idt_course@.len() <= MAX_TEXT_LEN,
    ensures
        r == spec_fields_match(claim_name@, idt_name@, claim_course@, idt_course@, bonus),
{
    let s1: Similarity = cosine_similarity(claim_name, idt_name);
    let s2: Similarity = cosine_similarity(claim_course, idt_course);
    proof {
        lemma_sim_bounds(claim_name@.len() as int, idt_name@.len() as int, s1);
        lemma_sim_bounds(claim_course@.len() as int, idt_course@.len() as int, s2);
        assert(s1.qa * s1.qb <= 65025 * 65025 && s2.qa * s2.qb <= 65025 * 65025)
            by (nonlinear_arith)
            requires
                s1.qa <= 65025,
                s1.qb <= 65025,
                s2.qa <= 65025,
                s2.qb <= 65025,
        ;
    }
    let d1: u128 = s1.dot;
    let u: u128 = s1.qa * s1.qb;
    let d2: u128 = s2.dot;
    let v: u128 = s2.qa * s2.qb;
    let x: u128 = NAME_WEIGHT * d1;
    let y: u128 = COURSE_WEIGHT * d2;
    let c: u128 = if bonus {
        THRESHOLD - DATE_BONUS
    } else {
        THRESHOLD
    };
    proof {
        lemma_accept_arith_bounds(d1 as int, u as int, d2 as int, v as int, c as int);
    }
    if u == 0 && v == 0 {
        false
    } else if u == 0 {
        let yy: u128 = y * y;
        yy >= c * c * v
    } else if v == 0 {
        let xx: u128 = x * x;
        xx >= c * c * u
    } else {
        let xx: u128 = x * x;
        let yy: u128 = y * y;
        let uv: u128 = u * v;
        let l: u128 = xx * v + yy * u;
        let cc: u128 = c * c;
        let rr: u128 = cc * uv;
        if l >= rr {
            true
        } else {
            let diff: u128 = rr - l;
            let m: u128 = 4 * xx * yy;
            let ans = prod_le(diff, diff, m, uv);
            proof {
                assert(m * uv == 4 * (x as int * x as int) * (y as int * y as int) * (u as int
                    * v as int)) by (nonlinear_arith)
                    requires
                        m == 4 * (x as int * x as int) * (y as int * y as int),
                        uv == u as int * v as int,
                ;
            }
            ans
        }
    }
}

/// Bounds on the fields of a similarity of two strings of at most 255
/// characters: dot product and squared norms stay within `255^2`.
proof fn lemma_sim_bounds(la: int, lb: int, s: Similarity)
    requires
        0 <= la <= 255,
        0 <= lb <= 255,
        s.dot <= la * lb,
        s.qa <= la * la,
        s.qb <= lb * lb,
    ensures
        s.dot <= 65025,
        s.qa <= 65025,
        s.qb <= 65025,
{
    lemma_mul_upper_bound(la, 255, lb, 255);
    lemma_mul_upper_bound(la, 255, la, 255);
    lemma_mul_upper_bound(lb, 255, lb, 255);
}

/// All intermediate products of the threshold decision stay within
/// `u128` when every similarity ingredient is at most `255^2`.
proof fn lemma_accept_arith_bounds(d1: int, u: int, d2: int, v: int, c: int)
    requires
        0 <= d1 <= 65025,
        0 <= d2 <= 65025,
        0 <= u,
        0 <= v,
        u <= 65025 * 65025,
        v <= 65025 * 65025,
        0 <= c <= 540,
    ensures
        600 * d1 <= 39015000,
        250 * d2 <= 16256250,
        (600 * d1) * (600 * d1) <= 39015000 * 39015000,
        (250 * d2) * (250 * d2) <= 16256250 * 16256250,
        u * v <= (65025 * 65025) * (65025 * 65025),
        (600 * d1) * (600 * d1) * v + (250 * d2) * (250 * d2) * u <= u128::MAX,
        c * c <= 291600,
        c * c * u <= u128::MAX,
        c * c * v <= u128::MAX,
        c * c * (u * v) <= u128::MAX,
        4 * ((600 * d1) * (600 * d1)) * ((250 * d2) * (250 * d2)) <= u128::MAX,
{
    let x = 600 * d1;
    let y = 250 * d2;
    assert(x * x <= 39015000 * 39015000) by (nonlinear_arith)
        requires
            0 <= x <= 39015000,
    ;
    assert(y * y <= 16256250 * 16256250) by (nonlinear_arith)
        requires
            0 <= y <= 16256250,
    ;
    assert(u * v <= (65025 * 65025) * (65025 * 65025)) by (nonlinear_arith)
        requires
            0 <= u <= 65025 * 65025,
            0 <= v <= 65025 * 65025,
    ;
    assert(x * x * v <= (39015000 * 39015000) * (65025 * 65025)) by (nonlinear_arith)
        requires
            0 <= x * x <= 39015000 * 39015000,
            0 <= v <= 65025 * 65025,
    ;
    assert(y * y * u <= (16256250 * 16256250) * (65025 * 65025)) by (nonlinear_arith)
        requires
            0 <= y * y <= 16256250 * 16256250,
            0 <= u <= 65025 * 65025,
    ;
    assert(c * c <= 291600) by (nonlinear_arith)
        requires
            0 <= c <= 540,
    ;
    assert(c * c * (u * v) <= 291600 * ((65025 * 65025) * (65025 * 65025))) by (nonlinear_arith)
        requires
            0 <= c * c <= 291600,
            0 <= u * v <= (65025 * 65025) * (65025 * 65025),
    ;
    assert(c * c * u <= 291600 * (65025 * 65025) && c * c * v <= 291600 * (65025 * 65025))
        by (nonlinear_arith)
        requires
            0 <= c * c <= 291600,
            0 <= u <= 65025 * 65025,
            0 <= v <= 65025 * 65025,
    ;
    assert(4 * (x * x) * (y * y) <= 4 * (39015000 * 39015000) * (16256250 * 16256250))
        by (nonlinear_arith)
        requires
            0 <= x * x <= 39015000 * 39015000,
            0 <= y * y <= 16256250 * 16256250,
    ;
}

} // verus!
