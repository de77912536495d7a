//! Saturating Q47.16 fixed-point arithmetic.
//!
//! Audio samples, amplitudes, filter coefficients and decibel values are all
//! carried as `i64` values scaled by `FX_ONE`. Every operation saturates at
//! the `i64` range instead of wrapping, and every operation has an exact
//! contract phrased over the mathematical integers.

use vstd::prelude::*;

verus! {

/// The fixed-point unit: values are scaled by `2^16`.
pub const FX_ONE: i64 = 65536;

/// Clamp an unbounded integer into the `i64` range.
pub open spec fn fx_sat(x: int) -> int {
    if x > i64::MAX as int {
        i64::MAX as int
    } else if x < i64::MIN as int {
        i64::MIN as int
    } else {
        x
    }
}

/// Division truncating toward zero, for a positive divisor; this is the
/// rounding the executable code performs on magnitudes.
pub open spec fn fx_tdiv(p: int, d: int) -> int
    recommends
        d > 0,
{
    if p >= 0 {
        p / d
    } else {
        -((-p) / d)
    }
}

/// The exact value of a saturating fixed-point product.
pub open spec fn fx_mul_spec(a: int, b: int) -> int {
    fx_sat(fx_tdiv(a * b, FX_ONE as int))
}

/// The exact value of a saturating fixed-point quotient.
pub open spec fn fx_div_spec(a: int, b: int) -> int
    recommends
        b > 0,
{
    fx_sat(fx_tdiv(a * (FX_ONE as int), b))
}

/// Magnitude of an `i64` as an unbounded integer.
pub open spec fn fx_abs(a: int) -> int {
    if a >= 0 {
        a
    } else {
        -a
    }
}

/// Magnitude of an `i64`, widened so that `i64::MIN` needs no special case.
fn magnitude(a: i64) -> (m: u128)
    ensures
        m == fx_abs(a as int),
{
    if a >= 0 {
        a as u128
    } else {
        (-(a as i128)) as u128
    }
}

/// Clamp a nonnegative magnitude with a sign back into the `i64` range.
fn apply_sign(m: u128, neg: bool) -> (r: i64)
    ensures
        neg ==> r as int == fx_sat(-(m as int)),
        !neg ==> r as int == fx_sat(m as int),
{
    if neg {
        if m >= 9223372036854775808u128 {
            i64::MIN
        } else {
            -(m as i64)
        }
    } else {
        if m > i64::MAX as u128 {
            i64::MAX
        } else {
            m as i64
        }
    }
}

proof fn lemma_mul_sign_split(a: int, b: int)
    ensures
        a * b == if (a < 0) != (b < 0) {
            -(fx_abs(a) * fx_abs(b))
        } else {
            fx_abs(a) * fx_abs(b)
        },
        fx_abs(a) * fx_abs(b) == fx_abs(a * b),
{
    assert(a * b == if (a < 0) != (b < 0) {
        -(fx_abs(a) * fx_abs(b))
    } else {
        fx_abs(a) * fx_abs(b)
    }) by (nonlinear_arith);
    assert(fx_abs(a) * fx_abs(b) == fx_abs(a * b)) by (nonlinear_arith);
}

/// Saturating fixed-point multiplication: `(a * b) / FX_ONE`, truncated
/// toward zero, clamped to the `i64` range.
pub fn fx_mul(a: i64, b: i64) -> (r: i64)
    ensures
        r as int == fx_mul_spec(a as int, b as int),
{
    let neg: bool = (a < 0) != (b < 0);
    let ma: u128 = magnitude(a);
    let mb: u128 = magnitude(b);
    proof {
        assert(ma * mb <= 9223372036854775808u128 * 9223372036854775808u128) by (nonlinear_arith)
            requires
                ma <= 9223372036854775808u128,
                mb <= 9223372036854775808u128,
        ;
    }
    let mp: u128 = ma * mb;
    let mq: u128 = mp / 65536u128;
    proof {
        lemma_mul_sign_split(a as int, b as int);
        assert(mq == fx_tdiv(fx_abs(a as int * b as int), FX_ONE as int));
        if neg {
            assert(fx_tdiv(a as int * b as int, FX_ONE as int) == -(mq as int));
        } else {
            assert(fx_tdiv(a as int * b as int, FX_ONE as int) == mq as int);
        }
    }
    apply_sign(mq, neg)
}

/// Saturating fixed-point division: `(a * FX_ONE) / b`, truncated toward
/// zero, clamped to the `i64` range. The divisor must be positive.
pub fn fx_div(a: i64, b: i64) -> (r: i64)
    requires
        b > 0,
    ensures
        r as int == fx_div_spec(a as int, b as int),
{
    let neg: bool = a < 0;
    let ma: u128 = magnitude(a);
    proof {
        assert(ma * 65536u128 <= 9223372036854775808u128 * 65536u128) by (nonlinear_arith)
            requires
                ma <= 9223372036854775808u128,
        ;
    }
    let mp: u128 = ma * 65536u128;
    let mq: u128 = mp / (b as u128);
    proof {
        lemma_mul_sign_split(a as int, FX_ONE as int);
        assert(mq == fx_tdiv(fx_abs(a as int * FX_ONE as int), b as int));
        if neg {
            assert(fx_tdiv(a as int * FX_ONE as int, b as int) == -(mq as int));
        } else {
            assert(fx_tdiv(a as int * FX_ONE as int, b as int) == mq as int);
        }
    }
    apply_sign(mq, neg)
}

/// Saturating addition.
pub fn fx_add(a: i64, b: i64) -> (r: i64)
    ensures
        r as int == fx_sat(a as int + b as int),
{
    let s: i128 = a as i128 + b as i128;
    if s > i64::MAX as i128 {
        i64::MAX
    } else if s < i64::MIN as i128 {
        i64::MIN
    } else {
        s as i64
    }
}

/// Saturating subtraction.
pub fn fx_sub(a: i64, b: i64) -> (r: i64)
    ensures
        r as int == fx_sat(a as int - b as int),
{
    let s: i128 = a as i128 - b as i128;
    if s > i64::MAX as i128 {
        i64::MAX
    } else if s < i64::MIN as i128 {
        i64::MIN
    } else {
        s as i64
    }
}

/// `r` brackets `x` between consecutive squares.
pub open spec fn is_isqrt(r: int, x: int) -> bool {
    0 <= r && r * r <= x < (r + 1) * (r + 1)
}

/// The integer square root: the unique `r` with `r * r <= x < (r+1)^2`.
pub open spec fn spec_isqrt(x: int) -> int {
    choose|r: int| is_isqrt(r, x)
}

/// Two integers that both bracket `x` between consecutive squares are the
/// same integer.
pub proof fn lemma_isqrt_unique(x: int, r1: int, r2: int)
    requires
        is_isqrt(r1, x),
        is_isqrt(r2, x),
    ensures
        r1 == r2,
{
    assert(r1 == r2) by (nonlinear_arith)
        requires
            0 <= r1,
            r1 * r1 <= x < (r1 + 1) * (r1 + 1),
            0 <= r2,
            r2 * r2 <= x < (r2 + 1) * (r2 + 1),
    ;
}

/// Integer square root: the greatest `r` with `r * r <= x`.
pub fn isqrt(x: u64) -> (r: u64)
    ensures
        r * r <= x,
        (r + 1) * (r + 1) > x,
        r == spec_isqrt(x as int),
{
    if x == 0 {
        proof {
            assert(exists|r: int| is_isqrt(r, 0)) by {
                assert(is_isqrt(0, 0));
            };
            lemma_isqrt_unique(0, 0, spec_isqrt(0));
        }
        return 0;
    }
    let mut lo: u64 = 0;
    let mut hi: u64 = 4294967296;
    proof {
        assert(4294967296int * 4294967296int > x as int) by (nonlinear_arith)
            requires
                x <= u64::MAX,
        ;
    }
    while hi - lo > 1
        invariant
            lo < hi <= 4294967296,
            lo * lo <= x,
            hi * hi > x,
        decreases hi - lo,
    {
        let mid: u64 = lo + (hi - lo) / 2;
        proof {
            assert(mid * mid < 18446744073709551616int) by (nonlinear_arith)
                requires
                    mid < 4294967296,
            ;
        }
        if mid * mid <= x {
            lo = mid;
        } else {
            hi = mid;
        }
    }
    proof {
        assert(exists|r: int| is_isqrt(r, x as int)) by {
            assert(is_isqrt(lo as int, x as int));
        };
        lemma_isqrt_unique(x as int, lo as int, spec_isqrt(x as int));
    }
    lo
}

/// Saturating fixed-point multiplication stays within `[0, a]` whenever the
/// second factor is a unit-interval value.
pub proof fn lemma_fx_mul_unit(a: int, b: int)
    requires
        0 <= a,
        0 <= b <= FX_ONE,
    ensures
        0 <= fx_mul_spec(a, b) <= a,
{
    assert(0 <= a * b <= a * (FX_ONE as int)) by (nonlinear_arith)
        requires
            0 <= a,
            0 <= b <= FX_ONE,
    ;
    assert(0 <= (a * b) / (FX_ONE as int) <= a) by (nonlinear_arith)
        requires
            0 <= a * b <= a * (FX_ONE as int),
            FX_ONE == 65536,
    ;
}

/// The per-step increment of a linear ramp from `current` to `target` over
/// `steps` steps, truncated toward zero.
pub fn fx_ramp_step(target: i64, current: i64, steps: u64) -> (r: i64)
    requires
        steps > 0,
    ensures
        r as int == fx_sat(fx_tdiv(target - current, steps as int)),
{
    let diff: i128 = target as i128 - current as i128;
    let neg: bool = diff < 0;
    let m: u128 = if neg {
        (-diff) as u128
    } else {
        diff as u128
    };
    let mq: u128 = m / (steps as u128);
    apply_sign(mq, neg)
}

} // verus!
