//! Saturating fixed-point scalar arithmetic.
//!
//! A scalar is an `i64` raw value standing for the rational `raw / SCALE`.
//! Every operation saturates at the `i64` range and is therefore total; each
//! executable operation is pinned exactly to its spec-level counterpart.

use vstd::prelude::*;

verus! {

/// The number of raw units in one world unit.
pub const SCALE: i64 = 65536;

/// Half a world unit, in raw units.
pub const HALF: i64 = 32768;

/// Saturation of a mathematical integer into the `i64` range.
pub open spec fn sat(x: int) -> int {
    if x > i64::MAX {
        i64::MAX as int
    } else if x < i64::MIN {
        i64::MIN as int
    } else {
        x
    }
}

/// The absolute value, as an `int`.
pub open spec fn iabs(a: int) -> int {
    if a < 0 {
        -a
    } else {
        a
    }
}

/// Division truncating toward zero, as machine division does; the
/// divisor must not be zero.
pub open spec fn tdiv(a: int, b: int) -> int
    recommends
        b != 0,
{
    if (a < 0) == (b < 0) {
        iabs(a) / iabs(b)
    } else {
        -(iabs(a) / iabs(b))
    }
}

/// Saturating addition of two scalars.
pub open spec fn spec_add(a: int, b: int) -> int {
    sat(a + b)
}

/// Saturating subtraction of two scalars.
pub open spec fn spec_sub(a: int, b: int) -> int {
    sat(a - b)
}

/// Saturating negation of a scalar.
pub open spec fn spec_neg(a: int) -> int {
    sat(-a)
}

/// Fixed-point product of two scalars: the raw values multiply and the
/// extra factor of `SCALE` divides back out, truncating toward zero.
pub open spec fn spec_mul(a: int, b: int) -> int {
    sat(tdiv(a * b, SCALE as int))
}

/// Fixed-point quotient of two scalars; a zero divisor yields zero.
pub open spec fn spec_div(a: int, b: int) -> int {
    if b == 0 {
        0
    } else {
        sat(tdiv(a * (SCALE as int), b))
    }
}

/// Quotient of a scalar by a positive integer count (not itself scaled),
/// truncating toward zero.
pub open spec fn spec_div_count(a: int, n: int) -> int
    recommends
        n >= 1,
{
    tdiv(a, n)
}

/// The magnitude of a scalar, as an unsigned machine word.
pub fn abs_u64(a: i64) -> (r: u64)
    ensures
        r == iabs(a as int),
{
    if a < 0 {
        (-(a as i128)) as u64
    } else {
        a as u64
    }
}

pub fn sat_add(a: i64, b: i64) -> (r: i64)
    ensures
        r == spec_add(a as int, b as int),
{
    let s: i128 = a as i128 + b as i128;
    if s > i64::MAX as i128 {
        i64::MAX
    } else if s < i64::MIN as i128 {
        i64::MIN
    } else {
        s as i64
    }
}

pub fn sat_sub(a: i64, b: i64) -> (r: i64)
    ensures
        r == spec_sub(a as int, b as int),
{
    let s: i128 = a as i128 - b as i128;
    if s > i64::MAX as i128 {
        i64::MAX
    } else if s < i64::MIN as i128 {
        i64::MIN
    } else {
        s as i64
    }
}

pub fn sat_neg(a: i64) -> (r: i64)
    ensures
        r == spec_neg(a as int),
{
    if a == i64::MIN {
        i64::MAX
    } else {
        -a
    }
}

/// Packs a sign and a magnitude back into a saturated `i64`.
fn from_sign_mag(neg: bool, mag: u128) -> (r: i64)
    ensures
        neg ==> r == sat(-(mag as int)),
        !neg ==> r == sat(mag as int),
{
    if neg {
        if mag > 9223372036854775808u128 {
            i64::MIN
        } else {
            (-(mag as i128)) as i64
        }
    } else {
        if mag > i64::MAX as u128 {
            i64::MAX
        } else {
            mag as i64
        }
    }
}

proof fn lemma_abs_mul(a: int, b: int)
    ensures
        iabs(a) * iabs(b) == iabs(a * b),
{
    assert(iabs(a) * iabs(b) == iabs(a * b))
        by (nonlinear_arith);
}

pub fn fx_mul(a: i64, b: i64) -> (r: i64)
    ensures
        r == spec_mul(a as int, b as int),
{
    let neg: bool = (a < 0) != (b < 0);
    let ma: u128 = abs_u64(a) as u128;
    let mb: u128 = abs_u64(b) as u128;
    proof {
        assert(ma * mb <= 0x8000000000000000u128 * 0x8000000000000000u128)
            by (nonlinear_arith)
            requires
                ma <= 0x8000000000000000u128,
                mb <= 0x8000000000000000u128,
        ;
    }
    let mq: u128 = ma * mb / (SCALE as u128);
    proof {
        lemma_abs_mul(a as int, b as int);
        if a as int * b as int >= 0 {
            assert(!neg || mq == 0) by {
                if neg {
                    assert(a as int * b as int <= 0) by (nonlinear_arith)
                        requires
                            (a < 0) != (b < 0),
                    ;
                }
            }
        } else {
            assert(neg) by {
                assert((a as int) * (b as int) < 0 ==> ((a < 0) != (b < 0)))
                    by (nonlinear_arith);
            }
        }
    }
    from_sign_mag(neg, mq)
}

pub fn fx_div(a: i64, b: i64) -> (r: i64)
    ensures
        r == spec_div(a as int, b as int),
{
    if b == 0 {
        return 0;
    }
    let neg: bool = (a < 0) != (b < 0);
    let mag: u128 = abs_u64(a) as u128;
    proof {
        assert(mag * (SCALE as u128) <= 0x8000000000000000u128 * 65536u128)
            by (nonlinear_arith)
            requires
                mag <= 0x8000000000000000u128,
        ;
    }
    let ma: u128 = mag * (SCALE as u128);
    let mq: u128 = ma / (abs_u64(b) as u128);
    proof {
        lemma_abs_mul(a as int, SCALE as int);
        if a as int * (SCALE as int) >= 0 {
            assert(a >= 0) by (nonlinear_arith)
                requires
                    a as int * (SCALE as int) >= 0,
                    SCALE as int > 0,
            ;
        } else {
            assert(a < 0) by (nonlinear_arith)
                requires
                    a as int * (SCALE as int) < 0,
                    SCALE as int > 0,
            ;
        }
    }
    from_sign_mag(neg, mq)
}

pub fn div_count(a: i64, n: u64) -> (r: i64)
    requires
        n >= 1,
    ensures
        r == spec_div_count(a as int, n as int),
{
    let neg: bool = a < 0;
    let mq: u128 = abs_u64(a) as u128 / (n as u128);
    proof {
        assert(mq <= iabs(a as int));
        if neg {
            assert(sat(-(mq as int)) == -(mq as int));
        } else {
            assert(sat(mq as int) == mq as int);
        }
    }
    from_sign_mag(neg, mq)
}

/// The smaller of two scalars.
pub fn imin(a: i64, b: i64) -> (r: i64)
    ensures
        r == vstd::math::min(a as int, b as int),
{
    if a <= b {
        a
    } else {
        b
    }
}

/// The larger of two scalars.
pub fn imax(a: i64, b: i64) -> (r: i64)
    ensures
        r == vstd::math::max(a as int, b as int),
{
    if a >= b {
        a
    } else {
        b
    }
}

/// The integer square root: the largest `r` with `r * r <= n`.
pub open spec fn spec_isqrt(n: nat) -> nat
    decreases n,
{
    if n == 0 {
        0
    } else {
        let r = spec_isqrt((n - 1) as nat);
        if (r + 1) * (r + 1) <= n {
            r + 1
        } else {
            r
        }
    }
}

pub proof fn lemma_isqrt_bounds(n: nat)
    ensures
        spec_isqrt(n) * spec_isqrt(n) <= n,
        n < (spec_isqrt(n) + 1) * (spec_isqrt(n) + 1),
    decreases n,
{
    if n == 0 {
        assert(spec_isqrt(n) == 0);
        assert(n < (spec_isqrt(n) + 1) * (spec_isqrt(n) + 1)) by (nonlinear_arith)
            requires
                n == 0,
                spec_isqrt(n) == 0,
        ;
    } else {
        lemma_isqrt_bounds((n - 1) as nat);
        let r = spec_isqrt((n - 1) as nat);
        if (r + 1) * (r + 1) <= n {
            assert(spec_isqrt(n) == r + 1);
            assert(n <= (r + 1) * (r + 1));
            assert(spec_isqrt(n) * spec_isqrt(n) <= n
                && n < (spec_isqrt(n) + 1) * (spec_isqrt(n) + 1)) by (nonlinear_arith)
                requires
                    spec_isqrt(n) == r + 1,
                    (r + 1) * (r + 1) <= n,
                    n <= (r + 1) * (r + 1),
            ;
        } else {
            assert(spec_isqrt(n) == r);
            assert(r * r <= n - 1);
            assert(spec_isqrt(n) * spec_isqrt(n) <= n
                && n < (spec_isqrt(n) + 1) * (spec_isqrt(n) + 1)) by (nonlinear_arith)
                requires
                    spec_isqrt(n) == r,
                    r * r <= n - 1,
                    !((r + 1) * (r + 1) <= n),
            ;
        }
    }
}

pub proof fn lemma_isqrt_unique(n: nat, r: nat)
    requires
        r * r <= n,
        n < (r + 1) * (r + 1),
    ensures
        r == spec_isqrt(n),
{
    lemma_isqrt_bounds(n);
    let s = spec_isqrt(n);
    if r < s {
        assert((r + 1) * (r + 1) <= s * s) by (nonlinear_arith)
            requires
                r + 1 <= s,
        ;
    }
    if s < r {
        assert((s + 1) * (s + 1) <= r * r) by (nonlinear_arith)
            requires
                s + 1 <= r,
        ;
    }
}

pub fn isqrt(n: u128) -> (r: u64)
    ensures
        r == spec_isqrt(n as nat),
{
    let mut lo: u128 = 0;
    let mut hi: u128 = u64::MAX as u128;
    proof {
        assert(n < (hi as int + 1) * (hi as int + 1)) by (nonlinear_arith)
            requires
                hi == u64::MAX as u128,
                n <= u128::MAX,
        ;
    }
    while lo < hi
        invariant
            lo <= hi,
            hi <= u64::MAX,
            lo * lo <= n,
            n < (hi as int + 1) * (hi as int + 1),
        decreases hi - lo,
    {
        let mid: u128 = lo + (hi - lo + 1) / 2;
        proof {
            assert(mid * mid <= u128::MAX) by (nonlinear_arith)
                requires
                    mid <= u64::MAX as u128,
            ;
        }
        if mid * mid <= n {
            lo = mid;
        } else {
            hi = mid - 1;
        }
    }
    proof {
        lemma_isqrt_unique(n as nat, lo as nat);
    }
    lo as u64
}

} // verus!
