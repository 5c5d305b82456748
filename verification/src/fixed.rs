//! Saturating signed fixed-point scalars.
//!
//! Every scalar quantity of the renderer is an `i64` counting steps of
//! `1 / ONE` of a world unit.  Each operation clamps its result into
//! `[-CAP, CAP]`, so all of them are total: saturation plays the role that an
//! overflow to infinity plays in binary floating point, and a zero divisor
//! yields zero instead of a non-finite value.

use vstd::prelude::*;
use vstd::arithmetic::div_mod::lemma_div_of0;
use vstd::arithmetic::div_mod::lemma_div_nonincreasing;
use vstd::arithmetic::div_mod::lemma_fundamental_div_mod_converse;
use vstd::arithmetic::mul::lemma_mul_upper_bound;

verus! {

/// One world unit, in raw fixed-point steps.
pub const ONE: i64 = 1_000_000;

/// Saturation bound of every scalar operation: `(1 << 62) - 1`.
pub const CAP: i64 = 4_611_686_018_427_387_903;

pub open spec fn abs_int(x: int) -> int {
    if x < 0 {
        -x
    } else {
        x
    }
}

/// Truncating (round-toward-zero) division, the semantics of machine
/// division on signed integers.
pub open spec fn tdiv(x: int, d: int) -> int
    recommends
        d != 0,
{
    if (x < 0) != (d < 0) {
        -(abs_int(x) / abs_int(d))
    } else {
        abs_int(x) / abs_int(d)
    }
}

/// Clamp an unbounded integer into the representable band `[-CAP, CAP]`.
pub open spec fn clamp_cap(x: int) -> int {
    if x > CAP as int {
        CAP as int
    } else if x < -(CAP as int) {
        -(CAP as int)
    } else {
        x
    }
}

pub open spec fn spec_fx_add(a: int, b: int) -> int {
    clamp_cap(a + b)
}

pub open spec fn spec_fx_sub(a: int, b: int) -> int {
    clamp_cap(a - b)
}

pub open spec fn spec_fx_neg(a: int) -> int {
    clamp_cap(-a)
}

pub open spec fn spec_fx_abs(a: int) -> int {
    clamp_cap(abs_int(a))
}

/// Fixed-point product: `a * b` rescaled by `ONE`, rounded toward zero.
pub open spec fn spec_fx_mul(a: int, b: int) -> int {
    clamp_cap(tdiv(a * b, ONE as int))
}

/// Fixed-point quotient: `a / b` rescaled by `ONE`, rounded toward zero;
/// zero when the divisor is zero.
pub open spec fn spec_fx_div(a: int, b: int) -> int {
    if b == 0 {
        0
    } else {
        clamp_cap(tdiv(a * ONE as int, b))
    }
}

/// The magnitudes and signs of a product follow those of its factors.
pub proof fn lemma_abs_mul(a: int, b: int)
    by (nonlinear_arith)
    ensures
        (if a < 0 { -a } else { a }) * (if b < 0 { -b } else { b }) == (if a * b < 0 {
            -(a * b)
        } else {
            a * b
        }),
        ((a < 0) != (b < 0)) ==> a * b <= 0,
        ((a < 0) == (b < 0)) ==> a * b >= 0,
        (a * b == 0) <==> (a == 0 || b == 0),
{
}

fn clamp_i128(s: i128) -> (r: i64)
    ensures
        r as int == clamp_cap(s as int),
{
    if s > CAP as i128 {
        CAP
    } else if s < -(CAP as i128) {
        -CAP
    } else {
        s as i64
    }
}

/// Magnitude of an `i64` as a `u64`; total, also on the minimum value.
fn abs_u64(a: i64) -> (r: u64)
    ensures
        r as int == abs_int(a as int),
{
    if a >= 0 {
        a as u64
    } else if a == i64::MIN {
        9_223_372_036_854_775_808u64
    } else {
        (-a) as u64
    }
}

pub fn fx_add(a: i64, b: i64) -> (r: i64)
    ensures
        r as int == spec_fx_add(a as int, b as int),
{
    clamp_i128(a as i128 + b as i128)
}

pub fn fx_sub(a: i64, b: i64) -> (r: i64)
    ensures
        r as int == spec_fx_sub(a as int, b as int),
{
    clamp_i128(a as i128 - b as i128)
}

pub fn fx_neg(a: i64) -> (r: i64)
    ensures
        r as int == spec_fx_neg(a as int),
{
    clamp_i128(-(a as i128))
}

pub fn fx_abs(a: i64) -> (r: i64)
    ensures
        r as int == spec_fx_abs(a as int),
{
    if a < 0 {
        clamp_i128(-(a as i128))
    } else {
        clamp_i128(a as i128)
    }
}

pub fn fx_mul(a: i64, b: i64) -> (r: i64)
    ensures
        r as int == spec_fx_mul(a as int, b as int),
{
    let negative: bool = (a < 0) != (b < 0);
    let ua: u128 = abs_u64(a) as u128;
    let ub: u128 = abs_u64(b) as u128;
    proof {
        lemma_abs_mul(a as int, b as int);
        lemma_mul_upper_bound(
            ua as int,
            0x8000_0000_0000_0000,
            ub as int,
            0x8000_0000_0000_0000,
        );
    }
    let up: u128 = ua * ub;
    let uq: u128 = up / (ONE as u128);
    proof {
        lemma_div_nonincreasing(up as int, ONE as int);
        assert(up as int == abs_int(a as int * b as int));
        if a as int * b as int == 0 {
            lemma_div_of0(ONE as int);
        }
    }
    let q: i128 = if negative {
        -(uq as i128)
    } else {
        uq as i128
    };
    clamp_i128(q)
}

pub fn fx_div(a: i64, b: i64) -> (r: i64)
    ensures
        r as int == spec_fx_div(a as int, b as int),
{
    if b == 0 {
        return 0;
    }
    let av: u64 = abs_u64(a);
    proof {
        lemma_mul_upper_bound(av as int, 0x8000_0000_0000_0000, ONE as int, ONE as int);
    }
    let ua: u128 = av as u128 * (ONE as u128);
    let ub: u128 = abs_u64(b) as u128;
    let uq: u128 = ua / ub;
    let negative: bool = (a < 0) != (b < 0);
    proof {
        lemma_abs_mul(a as int, ONE as int);
        assert(ua as int == abs_int(a as int * ONE as int));
        assert(((a as int * ONE as int) < 0) <==> (a < 0));
        lemma_div_nonincreasing(ua as int, ub as int);
        if a as int * ONE as int == 0 {
            lemma_div_of0(ub as int);
        }
    }
    let q: i128 = if negative {
        -(uq as i128)
    } else {
        uq as i128
    };
    clamp_i128(q)
}

/// Floor division by a positive divisor: quantisation onto a grid.
pub fn fx_fdiv(a: i64, d: i64) -> (r: i64)
    requires
        0 < d,
    ensures
        r as int == a as int / d as int,
{
    let ua: u64 = abs_u64(a);
    let ud: u64 = d as u64;
    let q: u64 = ua / ud;
    let rm: u64 = ua % ud;
    if a >= 0 {
        proof {
            lemma_div_nonincreasing(ua as int, ud as int);
        }
        q as i64
    } else {
        proof {
            let qi = q as int;
            let di = d as int;
            vstd::arithmetic::div_mod::lemma_fundamental_div_mod(ua as int, ud as int);
            if rm == 0 {
                assert((-qi) * di == -(di * qi)) by (nonlinear_arith);
                lemma_fundamental_div_mod_converse(a as int, d as int, -qi, 0);
            } else {
                assert((-qi - 1) * di == -(di * qi) - di) by (nonlinear_arith);
                lemma_fundamental_div_mod_converse(
                    a as int,
                    d as int,
                    -qi - 1,
                    di - rm as int,
                );
                assert(ud >= 2);
                vstd::arithmetic::div_mod::lemma_div_is_ordered_by_denominator(
                    ua as int,
                    2,
                    ud as int,
                );
                assert(qi <= 0x4000_0000_0000_0000);
            }
        }
        let qi: i128 = q as i128;
        if rm == 0 {
            (-qi) as i64
        } else {
            (-qi - 1) as i64
        }
    }
}

/// Whether a scalar is even; the checkerboard parity test.
pub fn fx_even(a: i64) -> (r: bool)
    ensures
        r == (a as int % 2 == 0),
{
    let ua: u64 = abs_u64(a);
    let rm: u64 = ua % 2;
    proof {
        vstd::arithmetic::div_mod::lemma_fundamental_div_mod(ua as int, 2);
        let q = ua as int / 2;
        if a < 0 {
            if rm == 0 {
                lemma_fundamental_div_mod_converse(a as int, 2, -q, 0);
            } else {
                lemma_fundamental_div_mod_converse(a as int, 2, -q - 1, 1);
            }
        }
    }
    rm == 0
}

pub fn fx_max(a: i64, b: i64) -> (r: i64)
    ensures
        r as int == if (a as int) > (b as int) { a as int } else { b as int },
{
    if a > b {
        a
    } else {
        b
    }
}


/// `r` is the integer square root of `n`.
pub open spec fn is_sqrt_of(n: int, r: int) -> bool {
    0 <= r && r * r <= n && n < (r + 1) * (r + 1)
}

/// The integer square root as a value; zero on negative inputs.
pub open spec fn spec_isqrt(n: int) -> int {
    if n < 0 {
        0
    } else {
        choose|r: int| is_sqrt_of(n, r)
    }
}

/// An integer has at most one integer square root.
pub proof fn lemma_sqrt_unique(n: int, r1: int, r2: int)
    by (nonlinear_arith)
    requires
        0 <= r1,
        r1 * r1 <= n,
        n < (r1 + 1) * (r1 + 1),
        0 <= r2,
        r2 * r2 <= n,
        n < (r2 + 1) * (r2 + 1),
    ensures
        r1 == r2,
{
}

/// Binary-search integer square root.
pub fn isqrt_u128(n: u128) -> (r: u64)
    ensures
        is_sqrt_of(n as int, r as int),
        r as int == spec_isqrt(n as int),
{
    let mut lo: u128 = 0;
    let mut hi: u128 = 18_446_744_073_709_551_616u128;
    while lo + 1 < hi
        invariant
            lo < hi <= 18_446_744_073_709_551_616u128,
            (lo as int) * (lo as int) <= n as int,
            (hi as int) * (hi as int) > n as int,
        decreases hi - lo,
    {
        let mid: u128 = lo + (hi - lo) / 2;
        proof {
            assert((mid as int) * (mid as int) < 340_282_366_920_938_463_463_374_607_431_768_211_455)
                by (nonlinear_arith)
                requires
                    mid < 18_446_744_073_709_551_616u128,
            ;
        }
        if mid * mid <= n {
            lo = mid;
        } else {
            hi = mid;
        }
    }
    proof {
        assert(is_sqrt_of(n as int, lo as int));
        let c = choose|r: int| is_sqrt_of(n as int, r);
        assert(is_sqrt_of(n as int, c));
        lemma_sqrt_unique(n as int, lo as int, c);
    }
    lo as u64
}

/// Fixed-point square root of a non-negative scalar; zero on negatives.
pub open spec fn spec_fx_sqrt(a: int) -> int {
    if a <= 0 {
        0
    } else {
        spec_isqrt(a * ONE as int)
    }
}

pub fn fx_sqrt(a: i64) -> (r: i64)
    ensures
        r as int == spec_fx_sqrt(a as int),
{
    if a <= 0 {
        return 0;
    }
    proof {
        lemma_mul_upper_bound(a as int, 9_223_372_036_854_775_807, ONE as int, ONE as int);
    }
    let n: u128 = (a as u128) * (ONE as u128);
    let r: u64 = isqrt_u128(n);
    proof {
        assert(r as int <= 3_100_000_000_000) by (nonlinear_arith)
            requires
                (r as int) * (r as int) <= n as int,
                n as int <= 9_223_372_036_854_775_807 * (ONE as int),
                0 <= r,
        ;
    }
    r as i64
}

/// Fixed-point power with a natural exponent.
pub open spec fn spec_fx_pow(b: int, e: nat) -> int
    decreases e,
{
    if e == 0 {
        ONE as int
    } else {
        spec_fx_mul(b, spec_fx_pow(b, (e - 1) as nat))
    }
}

pub fn fx_pow(b: i64, e: u32) -> (r: i64)
    ensures
        r as int == spec_fx_pow(b as int, e as nat),
{
    let mut acc: i64 = ONE;
    let mut i: u32 = 0;
    while i < e
        invariant
            i <= e,
            acc as int == spec_fx_pow(b as int, i as nat),
        decreases e - i,
    {
        acc = fx_mul(b, acc);
        i = i + 1;
    }
    acc
}

/// Every non-negative integer has an integer square root.
pub proof fn lemma_isqrt_exists(n: int) -> (r: int)
    requires
        n >= 0,
    ensures
        is_sqrt_of(n, r),
    decreases n,
{
    if n == 0 {
        assert(0int * 0 == 0) by (nonlinear_arith);
        assert(1int * 1 == 1) by (nonlinear_arith);
        0
    } else {
        let p = lemma_isqrt_exists(n - 1);
        if n < (p + 1) * (p + 1) {
            assert(p * p <= n - 1);
            p
        } else {
            assert(n == (p + 1) * (p + 1));
            assert((p + 1 + 1) * (p + 1 + 1) > (p + 1) * (p + 1)) by (nonlinear_arith)
                requires
                    p >= 0,
            ;
            p + 1
        }
    }
}

/// The value `spec_isqrt(n)` really is the integer square root of `n`.
pub proof fn lemma_isqrt_spec(n: int)
    requires
        n >= 0,
    ensures
        is_sqrt_of(n, spec_isqrt(n)),
{
    let w = lemma_isqrt_exists(n);
    assert(is_sqrt_of(n, w));
    let c = choose|r: int| is_sqrt_of(n, r);
    assert(is_sqrt_of(n, c));
}

/// Euclidean remainder by a positive divisor: the result sits in `[0, d)`.
pub fn fx_emod(a: i64, d: i64) -> (r: i64)
    requires
        0 < d,
    ensures
        r as int == a as int % d as int,
        0 <= r < d,
{
    let ua: u64 = abs_u64(a);
    let ud: u64 = d as u64;
    let q: u64 = ua / ud;
    let rm: u64 = ua % ud;
    proof {
        vstd::arithmetic::div_mod::lemma_fundamental_div_mod(ua as int, ud as int);
        let qi = q as int;
        let di = d as int;
        if a >= 0 {
        } else if rm == 0 {
            assert((-qi) * di == -(di * qi)) by (nonlinear_arith);
            lemma_fundamental_div_mod_converse(a as int, d as int, -qi, 0);
        } else {
            assert((-qi - 1) * di == -(di * qi) - di) by (nonlinear_arith);
            lemma_fundamental_div_mod_converse(a as int, d as int, -qi - 1, di - rm as int);
        }
    }
    if a >= 0 {
        rm as i64
    } else if rm == 0 {
        0
    } else {
        d - (rm as i64)
    }
}

/// A count of items as a fixed-point scalar, saturating at the cap.
pub fn fx_from_count(n: usize) -> (r: i64)
    ensures
        r as int == clamp_cap(n as int * ONE as int),
{
    proof {
        lemma_mul_upper_bound(n as int, 0xFFFF_FFFF_FFFF_FFFF, ONE as int, ONE as int);
    }
    clamp_i128(n as i128 * (ONE as i128))
}

/// Truncating remainder, the sign following the dividend.
pub open spec fn spec_trem(x: int, d: int) -> int
    recommends
        0 < d,
{
    if x < 0 {
        -((-x) % d)
    } else {
        x % d
    }
}

/// Truncating remainder by a positive divisor.
pub fn fx_trem(a: i64, d: i64) -> (r: i64)
    requires
        0 < d,
    ensures
        r as int == spec_trem(a as int, d as int),
        -d < r < d,
{
    let ua: u64 = abs_u64(a);
    let ud: u64 = d as u64;
    let rm: u64 = ua % ud;
    if a >= 0 {
        rm as i64
    } else {
        -(rm as i64)
    }
}

} // verus!
