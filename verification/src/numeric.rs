//! Integer arithmetic at the heart of the aggregator: minute bucketing of
//! event timestamps and fixed-point price computation.
//!
//! Prices are carried as unsigned fixed-point numbers with twelve fractional
//! decimal digits (one unit is `10^-12` SOL per token). SOL amounts are raw
//! lamports (`10^-9` SOL each), token amounts are raw token units (`10^-6`
//! tokens each).

use vstd::prelude::*;

verus! {

/// One SOL in lamports.
pub const LAMPORTS_PER_SOL: u64 = 1_000_000_000;

/// One token in raw token units.
pub const UNITS_PER_TOKEN: u64 = 1_000_000;

/// Scale factor of fixed-point prices: `10^12`.
pub const PRICE_SCALE: u64 = 1_000_000_000_000;

/// Largest value `price_fp` can return: every lamport amount over one raw
/// token unit.
pub const MAX_PRICE_FP: u128 = 18_446_744_073_709_551_615 * 1_000_000_000;

/// Start of the minute that `ts` lies in: the largest multiple of 60 that is
/// at most `ts`.
pub open spec fn spec_minute_bucket(ts: int) -> int {
    ts - (ts % 60)
}

/// Truncate an event timestamp (seconds) to the start of its minute.
pub fn minute_bucket(ts: i64) -> (r: i64)
    requires
        i64::MIN + 60 < ts,
    ensures
        r == spec_minute_bucket(ts as int),
        r as int % 60 == 0,
        r <= ts < r + 60,
{
    let m: i64 = ts % 60;
    if m < 0 {
        ts - m - 60
    } else {
        ts - m
    }
}

/// The fixed-point price (scale `10^12`) of a trade of `sol` lamports against
/// `tok` raw token units: SOL per token, zero when the token amount is zero.
pub open spec fn spec_price_fp(sol: u64, tok: u64) -> u128 {
    if tok == 0 {
        0u128
    } else {
        ((sol as int * 1_000_000_000) / (tok as int)) as u128
    }
}

/// Compute the fixed-point price of a trade. A token amount of zero yields
/// price zero, never a division error.
pub fn price_fp(sol: u64, tok: u64) -> (r: u128)
    ensures
        r == spec_price_fp(sol, tok),
        r <= MAX_PRICE_FP,
        tok == 0 ==> r == 0,
{
    if tok == 0 {
        0u128
    } else {
        let wide: u128 = (sol as u128) * 1_000_000_000u128;
        proof {
            assert(sol as int * 1_000_000_000 <= 18_446_744_073_709_551_615int * 1_000_000_000)
                by (nonlinear_arith)
                requires sol <= 18_446_744_073_709_551_615u64;
            assert(wide as int / tok as int <= wide as int) by (nonlinear_arith)
                requires wide >= 0, tok >= 1;
        }
        wide / (tok as u128)
    }
}

/// `2^64`, the base used to split a `u128` into two limbs.
pub const LIMB_BASE: u128 = 0x1_0000_0000_0000_0000;

/// The integer a four-limb little-endian digit string denotes in base `2^64`.
pub open spec fn limbs_value(r3: u64, r2: u64, r1: u64, r0: u64) -> int {
    ((r3 * 0x1_0000_0000_0000_0000 + r2) * 0x1_0000_0000_0000_0000 + r1) * 0x1_0000_0000_0000_0000
        + r0
}

/// Full 256-bit product of two `u128` values, as four base-`2^64` limbs,
/// most significant first.
pub fn wide_mul(x: u128, y: u128) -> (r: (u64, u64, u64, u64))
    ensures
        limbs_value(r.0, r.1, r.2, r.3) == x * y,
{
    let p: u128 = 0x1_0000_0000_0000_0000;
    let x1 = x / p;
    let x0 = x % p;
    let y1 = y / p;
    let y0 = y % p;
    proof {
        assert(x0 < p && y0 < p && x1 < p && y1 < p);
        assert(x0 * y0 < 0x1_0000_0000_0000_0000_0000_0000_0000_0000 && x0 * y1
            < 0x1_0000_0000_0000_0000_0000_0000_0000_0000 && x1 * y0
            < 0x1_0000_0000_0000_0000_0000_0000_0000_0000 && x1 * y1
            < 0x1_0000_0000_0000_0000_0000_0000_0000_0000) by (nonlinear_arith)
            requires
                0 <= x0 < 0x1_0000_0000_0000_0000,
                0 <= y0 < 0x1_0000_0000_0000_0000,
                0 <= x1 < 0x1_0000_0000_0000_0000,
                0 <= y1 < 0x1_0000_0000_0000_0000;
    }
    let p00 = x0 * y0;
    let p01 = x0 * y1;
    let p10 = x1 * y0;
    let p11 = x1 * y1;
    proof {
        assert(x * y == p11 * 0x1_0000_0000_0000_0000_0000_0000_0000_0000 + (p01 + p10)
            * 0x1_0000_0000_0000_0000 + p00) by (nonlinear_arith)
            requires
                x == x1 * 0x1_0000_0000_0000_0000 + x0,
                y == y1 * 0x1_0000_0000_0000_0000 + y0,
                p00 == x0 * y0,
                p01 == x0 * y1,
                p10 == x1 * y0,
                p11 == x1 * y1;
    }
    let r0 = p00 % p;
    let c0 = p00 / p;
    let m01 = p01 % p;
    let q01 = p01 / p;
    let m10 = p10 % p;
    let q10 = p10 / p;
    let m11 = p11 % p;
    let q11 = p11 / p;
    let t1 = c0 + m01 + m10;
    let r1 = t1 % p;
    let c1 = t1 / p;
    let t2 = c1 + q01 + q10 + m11;
    let r2 = t2 % p;
    let c2 = t2 / p;
    let t3 = c2 + q11;
    proof {
        assert(x * y == t3 * 0x1_0000_0000_0000_0000_0000_0000_0000_0000_0000_0000_0000_0000 + r2
            * 0x1_0000_0000_0000_0000_0000_0000_0000_0000 + r1 * 0x1_0000_0000_0000_0000 + r0);
        assert(x * y
            < 0x1_0000_0000_0000_0000_0000_0000_0000_0000_0000_0000_0000_0000_0000_0000_0000_0000)
            by (nonlinear_arith)
            requires
                0 <= x < 0x1_0000_0000_0000_0000_0000_0000_0000_0000,
                0 <= y < 0x1_0000_0000_0000_0000_0000_0000_0000_0000;
        assert(t3 < 0x1_0000_0000_0000_0000);
    }
    (t3 as u64, r2 as u64, r1 as u64, r0 as u64)
}

/// Comparing two four-limb digit strings lexicographically compares the
/// integers they denote.
proof fn lemma_limbs_lt(a3: u64, a2: u64, a1: u64, a0: u64, b3: u64, b2: u64, b1: u64, b0: u64)
    ensures
        (limbs_value(a3, a2, a1, a0) < limbs_value(b3, b2, b1, b0)) <==> (a3 < b3 || (a3 == b3
            && (a2 < b2 || (a2 == b2 && (a1 < b1 || (a1 == b1 && a0 < b0)))))),
{
}

/// Decide `a * b < c * d` exactly, with the full 256-bit products.
pub fn mul_lt(a: u128, b: u128, c: u128, d: u128) -> (r: bool)
    ensures
        r == (a * b < c * d),
{
    let (x3, x2, x1, x0) = wide_mul(a, b);
    let (y3, y2, y1, y0) = wide_mul(c, d);
    proof {
        lemma_limbs_lt(x3, x2, x1, x0, y3, y2, y1, y0);
    }
    x3 < y3 || (x3 == y3 && (x2 < y2 || (x2 == y2 && (x1 < y1 || (x1 == y1 && x0 < y0)))))
}

} // verus!
