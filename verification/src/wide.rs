//! Exact 256-bit products of `u128` values.
//!
//! The threshold decisions of the matching engine reduce to comparisons of
//! products that can exceed 128 bits.  A product is represented exactly as
//! a `(hi, lo)` pair standing for `hi * 2^128 + lo`.

use vstd::prelude::*;

verus! {

use vstd::arithmetic::div_mod::lemma_fundamental_div_mod;

/// `2^64`, the limb base used to split a `u128`.
pub const BASE64: u128 = 0x1_0000_0000_0000_0000;

/// `2^64` as a mathematical integer.
pub open spec fn b64() -> int {
    0x1_0000_0000_0000_0000
}

/// `2^128` as a mathematical integer.
pub open spec fn b128() -> int {
    b64() * b64()
}

/// The number a 256-bit `(hi, lo)` pair stands for.
pub open spec fn wide_val(hi: u128, lo: u128) -> int {
    hi * b128() + lo
}

/// Multiplies two `u128` values into an exact 256-bit result.
pub fn wide_mul(a: u128, b: u128) -> (r: (u128, u128))
    ensures
        wide_val(r.0, r.1) == a * b,
{
    let ah: u128 = a / BASE64;
    let al: u128 = a % BASE64;
    let bh: u128 = b / BASE64;
    let bl: u128 = b % BASE64;
    proof {
        lemma_fundamental_div_mod(a as int, b64());
        lemma_fundamental_div_mod(b as int, b64());
        assert(ah < BASE64 && bh < BASE64) by {
            assert(a as int / b64() < b64() && b as int / b64() < b64()) by (nonlinear_arith)
                requires
                    a <= u128::MAX,
                    b <= u128::MAX,
                    u128::MAX == b64() * b64() - 1,
            ;
        }
        assert((BASE64 - 1) * (BASE64 - 1) <= u128::MAX) by (nonlinear_arith);
        assert(3 * (BASE64 - 1) <= u128::MAX);
        assert(al * bl <= (BASE64 - 1) * (BASE64 - 1) && al * bh <= (BASE64 - 1) * (BASE64 - 1)
            && ah * bl <= (BASE64 - 1) * (BASE64 - 1) && ah * bh <= (BASE64 - 1) * (BASE64 - 1))
            by (nonlinear_arith)
            requires
                al < BASE64,
                ah < BASE64,
                bl < BASE64,
                bh < BASE64,
        ;
    }
    let p00: u128 = al * bl;
    let p01: u128 = al * bh;
    let p10: u128 = ah * bl;
    let p11: u128 = ah * bh;
    proof {
        assert(a * b == p11 * b128() + p01 * b64() + p10 * b64() + p00) by (nonlinear_arith)
            requires
                a == ah * b64() + al,
                b == bh * b64() + bl,
                p00 == al * bl,
                p01 == al * bh,
                p10 == ah * bl,
                p11 == ah * bh,
                b128() == b64() * b64(),
        ;
    }
    let r0: u128 = p00 % BASE64;
    let t1: u128 = p00 / BASE64 + p01 % BASE64 + p10 % BASE64;
    let r1: u128 = t1 % BASE64;
    let c1: u128 = t1 / BASE64;
    let t2: u128 = p01 / BASE64 + p10 / BASE64 + p11 % BASE64 + c1;
    let r2: u128 = t2 % BASE64;
    let c2: u128 = t2 / BASE64;
    let r3: u128 = p11 / BASE64 + c2;
    proof {
        lemma_fundamental_div_mod(p00 as int, b64());
        lemma_fundamental_div_mod(p01 as int, b64());
        lemma_fundamental_div_mod(p10 as int, b64());
        lemma_fundamental_div_mod(p11 as int, b64());
        lemma_fundamental_div_mod(t1 as int, b64());
        lemma_fundamental_div_mod(t2 as int, b64());
        assert(a * b == r3 * (b64() * b64() * b64()) + r2 * b128() + r1 * b64() + r0) by (nonlinear_arith)
            requires
                a * b == p11 * b128() + p01 * b64() + p10 * b64() + p00,
                p00 == b64() * (p00 as int / b64()) + p00 as int % b64(),
                p01 == b64() * (p01 as int / b64()) + p01 as int % b64(),
                p10 == b64() * (p10 as int / b64()) + p10 as int % b64(),
                p11 == b64() * (p11 as int / b64()) + p11 as int % b64(),
                t1 == p00 as int / b64() + p01 as int % b64() + p10 as int % b64(),
                t1 == b64() * (t1 as int / b64()) + t1 as int % b64(),
                t2 == p01 as int / b64() + p10 as int / b64() + p11 as int % b64() + c1,
                t2 == b64() * (t2 as int / b64()) + t2 as int % b64(),
                r0 == p00 as int % b64(),
                r1 == t1 as int % b64(),
                c1 == t1 as int / b64(),
                r2 == t2 as int % b64(),
                c2 == t2 as int / b64(),
                r3 == p11 as int / b64() + c2,
                b128() == b64() * b64(),
        ;
        assert(r3 < BASE64) by (nonlinear_arith)
            requires
                a * b == r3 * (b64() * b64() * b64()) + r2 * b128() + r1 * b64() + r0,
                a <= u128::MAX,
                b <= u128::MAX,
                u128::MAX == b64() * b64() - 1,
                b128() == b64() * b64(),
                r0 >= 0,
                r1 >= 0,
                r2 >= 0,
                r3 >= 0,
                b64() > 0,
        ;
        assert(r2 < BASE64 && r1 < BASE64 && r0 < BASE64);
        assert(r3 * BASE64 <= (BASE64 - 1) * BASE64) by (nonlinear_arith)
            requires
                r3 <= BASE64 - 1,
                BASE64 > 0,
        ;
        assert((BASE64 - 1) * BASE64 + (BASE64 - 1) == u128::MAX) by (nonlinear_arith)
            requires
                u128::MAX == b64() * b64() - 1,
                BASE64 == b64(),
        ;
        assert(r1 * BASE64 <= (BASE64 - 1) * BASE64) by (nonlinear_arith)
            requires
                r1 <= BASE64 - 1,
                BASE64 > 0,
        ;
    }
    let hi: u128 = r3 * BASE64 + r2;
    let lo: u128 = r1 * BASE64 + r0;
    proof {
        assert(hi * b128() + lo == a * b) by (nonlinear_arith)
            requires
                a * b == r3 * (b64() * b64() * b64()) + r2 * b128() + r1 * b64() + r0,
                hi == r3 * b64() + r2,
                lo == r1 * b64() + r0,
                b128() == b64() * b64(),
        ;
    }
    (hi, lo)
}

/// Compares two 256-bit pairs as the numbers they stand for.
pub fn wide_le(x: (u128, u128), y: (u128, u128)) -> (r: bool)
    ensures
        r == (wide_val(x.0, x.1) <= wide_val(y.0, y.1)),
{
    proof {
        lemma_wide_val_order(x.0, x.1, y.0, y.1);
        lemma_wide_val_order(y.0, y.1, x.0, x.1);
    }
    if x.0 < y.0 {
        true
    } else if x.0 > y.0 {
        false
    } else {
        x.1 <= y.1
    }
}

/// Tests two 256-bit pairs for equality of the numbers they stand for.
pub fn wide_eq(x: (u128, u128), y: (u128, u128)) -> (r: bool)
    ensures
        r == (wide_val(x.0, x.1) == wide_val(y.0, y.1)),
{
    proof {
        lemma_wide_val_order(x.0, x.1, y.0, y.1);
        lemma_wide_val_order(y.0, y.1, x.0, x.1);
    }
    x.0 == y.0 && x.1 == y.1
}

/// A strictly smaller high limb makes a strictly smaller value.
proof fn lemma_wide_val_order(h1: u128, l1: u128, h2: u128, l2: u128)
    ensures
        h1 < h2 ==> wide_val(h1, l1) < wide_val(h2, l2),
{
    if h1 < h2 {
        assert(h1 * b128() + b128() <= h2 * b128()) by (nonlinear_arith)
            requires
                h1 < h2,
                b128() > 0,
        ;
        assert(l1 < b128()) by (nonlinear_arith)
            requires
                l1 <= u128::MAX,
                u128::MAX == b64() * b64() - 1,
                b128() == b64() * b64(),
        ;
    }
}

/// Whether `a * b <= c * d`, decided exactly.
pub fn prod_le(a: u128, b: u128, c: u128, d: u128) -> (r: bool)
    ensures
        r == (a * b <= c * d),
{
    wide_le(wide_mul(a, b), wide_mul(c, d))
}

/// Whether `a * b == c * d`, decided exactly.
pub fn prod_eq(a: u128, b: u128, c: u128, d: u128) -> (r: bool)
    ensures
        r == (a * b == c * d),
{
    wide_eq(wide_mul(a, b), wide_mul(c, d))
}

} // verus!
