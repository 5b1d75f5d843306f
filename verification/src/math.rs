//! Fixed-point arithmetic helpers: sign-magnitude truncating and rounding
//! divisions, an integer square root and an integer fifth root. All deltas,
//! speeds and factors in this crate are integers in milli-units, so these
//! are the only numeric primitives the gesture pipeline needs.

use vstd::prelude::*;
use vstd::arithmetic::div_mod::{lemma_div_is_ordered, lemma_fundamental_div_mod};

verus! {

/// Magnitude of an integer.
pub open spec fn abs_val(v: int) -> int {
    if v >= 0 {
        v
    } else {
        -v
    }
}

/// `v` scaled by the milli-factor `m` (that is, by `m / 1000`), truncating
/// the magnitude toward zero.
pub open spec fn scale_milli_spec(v: int, m: int) -> int {
    if v >= 0 {
        (v * m) / 1000
    } else {
        -(((-v) * m) / 1000)
    }
}

/// `v` milli-units rounded to whole units, halves away from zero.
pub open spec fn round_milli_spec(v: int) -> int {
    if v >= 0 {
        (v + 500) / 1000
    } else {
        -(((-v) + 500) / 1000)
    }
}

/// `v` pico-scaled units rounded by a factor of 10^12, halves away from zero.
pub open spec fn round_e12_spec(v: int) -> int {
    if v >= 0 {
        (v + 500_000_000_000) / 1_000_000_000_000
    } else {
        -(((-v) + 500_000_000_000) / 1_000_000_000_000)
    }
}

/// Integer square root: the greatest `r` with `r * r <= n`.
pub open spec fn isqrt_spec(n: nat) -> nat
    decreases n,
{
    if n == 0 {
        0
    } else {
        let r = isqrt_spec((n - 1) as nat);
        if (r + 1) * (r + 1) <= n {
            (r + 1) as nat
        } else {
            r
        }
    }
}

/// Fifth power.
pub open spec fn pow5(x: int) -> int {
    x * x * x * x * x
}

/// Integer fifth root: the greatest `r` with `pow5(r) <= n`.
pub open spec fn iroot5_spec(n: nat) -> nat
    decreases n,
{
    if n == 0 {
        0
    } else {
        let r = iroot5_spec((n - 1) as nat);
        if pow5(r as int + 1) <= n {
            (r + 1) as nat
        } else {
            r
        }
    }
}

/// Products of larger nonnegative factors are larger.
pub proof fn lemma_mul_mono(x: int, y: int, z: int, w: int)
    by (nonlinear_arith)
    requires
        0 <= x <= y,
        0 <= z <= w,
    ensures
        x * z <= y * w,
{
}

/// Products of strictly larger positive factors are strictly larger.
pub proof fn lemma_mul_strict_mono(x: int, y: int, z: int, w: int)
    by (nonlinear_arith)
    requires
        1 <= x < y,
        1 <= z < w,
    ensures
        x * z < y * w,
{
}

/// The fifth power is monotone on nonnegative arguments.
pub proof fn lemma_pow5_mono(a: int, b: int)
    requires
        0 <= a <= b,
    ensures
        pow5(a) <= pow5(b),
{
    lemma_mul_mono(a, b, a, b);
    lemma_mul_mono(a * a, b * b, a, b);
    lemma_mul_mono(a * a * a, b * b * b, a, b);
    lemma_mul_mono(a * a * a * a, b * b * b * b, a, b);
}

/// The fifth power is strictly monotone on positive arguments.
pub proof fn lemma_pow5_strict_mono(a: int, b: int)
    requires
        1 <= a < b,
    ensures
        pow5(a) < pow5(b),
{
    assert(1 <= a * a && 1 <= (a * a) * a && 1 <= ((a * a) * a) * a) by (nonlinear_arith)
        requires
            1 <= a,
    ;
    lemma_mul_strict_mono(a, b, a, b);
    lemma_mul_strict_mono(a * a, b * b, a, b);
    lemma_mul_strict_mono(a * a * a, b * b * b, a, b);
    lemma_mul_strict_mono(a * a * a * a, b * b * b * b, a, b);
}

/// `isqrt_spec(n)` is sound: it squares to at most `n`, and one more squares
/// past `n`.
pub proof fn lemma_isqrt_bounds(n: nat)
    ensures
        isqrt_spec(n) * isqrt_spec(n) <= n,
        n < (isqrt_spec(n) + 1) * (isqrt_spec(n) + 1),
    decreases n,
{
    if n > 0 {
        lemma_isqrt_bounds((n - 1) as nat);
        let r = isqrt_spec((n - 1) as nat);
        if (r + 1) * (r + 1) <= n {
            assert(isqrt_spec(n) == r + 1);
            assert(n <= (r + 1) * (r + 1));
            lemma_mul_strict_mono(r as int + 1, r as int + 2, r as int + 1, r as int + 2);
            assert(n < (r + 2) * (r + 2));
        } else {
            assert(isqrt_spec(n) == r);
        }
    } else {
        assert(isqrt_spec(0nat) == 0);
        assert(n == 0);
        assert((isqrt_spec(n) + 1) * (isqrt_spec(n) + 1) == 1) by (nonlinear_arith)
            requires
                isqrt_spec(n) == 0,
        ;
    }
}

/// Any `r` bracketing `n` between `r * r` and `(r + 1) * (r + 1)` is the
/// integer square root.
pub proof fn lemma_isqrt_unique(n: nat, r: nat)
    requires
        r * r <= n,
        n < (r + 1) * (r + 1),
    ensures
        r == isqrt_spec(n),
{
    lemma_isqrt_bounds(n);
    let q = isqrt_spec(n);
    if q < r {
        lemma_mul_mono(q as int + 1, r as int, q as int + 1, r as int);
    } else if r < q {
        lemma_mul_mono(r as int + 1, q as int, r as int + 1, q as int);
    }
}

/// `iroot5_spec(n)` is sound.
pub proof fn lemma_iroot5_bounds(n: nat)
    ensures
        pow5(iroot5_spec(n) as int) <= n,
        n < pow5(iroot5_spec(n) as int + 1),
    decreases n,
{
    if n > 0 {
        lemma_iroot5_bounds((n - 1) as nat);
        let r = iroot5_spec((n - 1) as nat);
        if pow5(r as int + 1) <= n {
            assert(iroot5_spec(n) == r + 1);
            assert(n <= pow5(r as int + 1));
            lemma_pow5_strict_mono(r as int + 1, r as int + 2);
            assert(n < pow5(r as int + 2));
        } else {
            assert(iroot5_spec(n) == r);
        }
    } else {
        assert(iroot5_spec(0nat) == 0);
        assert(n == 0);
        assert(pow5(iroot5_spec(n) as int) == 0 && pow5(iroot5_spec(n) as int + 1) == 1)
            by (nonlinear_arith)
            requires
                iroot5_spec(n) == 0,
        ;
    }
}

/// Any `r` bracketing `n` between `pow5(r)` and `pow5(r + 1)` is the integer
/// fifth root.
pub proof fn lemma_iroot5_unique(n: nat, r: nat)
    requires
        pow5(r as int) <= n,
        n < pow5(r as int + 1),
    ensures
        r == iroot5_spec(n),
{
    lemma_iroot5_bounds(n);
    let q = iroot5_spec(n);
    if q < r {
        lemma_pow5_mono(q as int + 1, r as int);
    } else if r < q {
        lemma_pow5_mono(r as int + 1, q as int);
    }
}

/// The scaled magnitude is bounded by the scaled bound.
pub proof fn lemma_scale_milli_bound(v: int, m: int, bv: int)
    requires
        0 <= m,
        -bv <= v <= bv,
    ensures
        -((bv * m) / 1000) <= scale_milli_spec(v, m) <= (bv * m) / 1000,
{
    if v >= 0 {
        lemma_mul_mono(v, bv, m, m);
        lemma_div_is_ordered(v * m, bv * m, 1000);
        assert(v * m >= 0) by (nonlinear_arith)
            requires
                v >= 0,
                m >= 0,
        ;
        lemma_div_is_ordered(0, v * m, 1000);
    } else {
        lemma_mul_mono(-v, bv, m, m);
        lemma_div_is_ordered((-v) * m, bv * m, 1000);
        assert((-v) * m >= 0) by (nonlinear_arith)
            requires
                v < 0,
                m >= 0,
        ;
        lemma_div_is_ordered(0, (-v) * m, 1000);
    }
}

/// Scaling by a milli-factor of at most 1000 does not grow the magnitude,
/// and scaling a nonzero value by a factor of at most 999 strictly shrinks
/// a positive magnitude budget.
pub proof fn lemma_scale_milli_shrinks(v: int, m: int)
    requires
        0 <= m <= 1000,
    ensures
        abs_val(scale_milli_spec(v, m)) <= abs_val(v),
        m < 1000 && v != 0 ==> abs_val(scale_milli_spec(v, m)) < abs_val(v),
{
    let a = abs_val(v);
    assert(a * m <= a * 1000) by (nonlinear_arith)
        requires
            0 <= a,
            0 <= m <= 1000,
    ;
    lemma_div_is_ordered(a * m, a * 1000, 1000);
    assert((a * 1000) / 1000 == a) by (nonlinear_arith)
        requires
            a >= 0,
    ;
    assert(a * m >= 0) by (nonlinear_arith)
        requires
            a >= 0,
            m >= 0,
    ;
    lemma_div_is_ordered(0, a * m, 1000);
    if m < 1000 && v != 0 {
        assert(a * m <= a * 1000 - a) by (nonlinear_arith)
            requires
                1 <= a,
                0 <= m < 1000,
        ;
        lemma_div_is_ordered(a * m, a * 1000 - a, 1000);
        lemma_fundamental_div_mod(a * 1000 - a, 1000);
        assert((a * 1000 - a) / 1000 < a);
    }
}

/// Scale `v` by the milli-factor `m`, truncating toward zero.
pub fn scale_milli(v: i64, m: i64) -> (r: i64)
    requires
        0 <= m <= 1_300_000,
        -2_000_000_000_000 <= v <= 2_000_000_000_000,
    ensures
        r as int == scale_milli_spec(v as int, m as int),
{
    let neg = v < 0;
    let a: u64 = if neg {
        (-v) as u64
    } else {
        v as u64
    };
    proof {
        assert((a as int) * (m as int) <= 2_000_000_000_000int * 1_300_000) by (nonlinear_arith)
            requires
                0 <= a as int && a as int <= 2_000_000_000_000,
                0 <= m as int && m as int <= 1_300_000,
        ;
        assert((a as int) * (m as int) >= 0) by (nonlinear_arith)
            requires
                0 <= a as int && 0 <= m as int,
        ;
        lemma_div_is_ordered((a as int) * (m as int), 2_000_000_000_000int * 1_300_000, 1000);
        lemma_div_is_ordered(0, (a as int) * (m as int), 1000);
    }
    let q: u64 = (a * (m as u64)) / 1000;
    if neg {
        -(q as i64)
    } else {
        q as i64
    }
}

/// Round `v` milli-units to whole units, halves away from zero.
pub fn round_milli(v: i64) -> (r: i64)
    requires
        -3_000_000_000_000 <= v <= 3_000_000_000_000,
    ensures
        r as int == round_milli_spec(v as int),
        -3_000_000_001 <= r <= 3_000_000_001,
{
    let neg = v < 0;
    let a: u64 = if neg {
        (-v) as u64
    } else {
        v as u64
    };
    let q: u64 = (a + 500) / 1000;
    proof {
        lemma_div_is_ordered(a as int + 500, 3_000_000_000_500int, 1000);
        lemma_div_is_ordered(0, a as int + 500, 1000);
    }
    if neg {
        -(q as i64)
    } else {
        q as i64
    }
}

/// Round `v` by 10^12, halves away from zero.
pub fn round_e12(v: i128) -> (r: i64)
    requires
        -10_000_000_000_000_000_000 <= v <= 10_000_000_000_000_000_000,
    ensures
        r as int == round_e12_spec(v as int),
        -10_000_000 <= r <= 10_000_000,
{
    let neg = v < 0;
    let a: u128 = if neg {
        (-v) as u128
    } else {
        v as u128
    };
    let q: u128 = (a + 500_000_000_000) / 1_000_000_000_000;
    proof {
        lemma_div_is_ordered(a as int + 500_000_000_000, 10_000_500_000_000_000_000int, 1_000_000_000_000);
        lemma_div_is_ordered(0, a as int + 500_000_000_000, 1_000_000_000_000);
    }
    if neg {
        -(q as i64)
    } else {
        q as i64
    }
}

/// Integer square root of `n`, for `n` up to 2 * 10^10.
pub fn isqrt_u64(n: u64) -> (r: u64)
    requires
        n <= 20_000_000_000,
    ensures
        r as nat == isqrt_spec(n as nat),
        r <= 141_421,
{
    let mut lo: u64 = 0;
    let mut hi: u64 = 141_422;
    while lo + 1 < hi
        invariant
            lo < hi <= 141_422,
            n <= 20_000_000_000,
            (lo as int) * (lo as int) <= n as int,
            (n as int) < (hi as int) * (hi as int),
        decreases hi - lo,
    {
        let mid = lo + (hi - lo) / 2;
        proof {
            assert((mid as int) * (mid as int) <= 141_422 * 141_422) by (nonlinear_arith)
                requires
                    0 <= mid as int && mid as int <= 141_422,
            ;
        }
        if mid * mid <= n {
            lo = mid;
        } else {
            hi = mid;
        }
    }
    proof {
        lemma_isqrt_unique(n as nat, lo as nat);
    }
    lo
}

/// Integer fifth root of `n`, for `n` up to 2 * 10^30.
pub fn iroot5_u128(n: u128) -> (r: u128)
    requires
        n <= 2_000_000_000_000_000_000_000_000_000_000,
    ensures
        r as nat == iroot5_spec(n as nat),
        r <= 1_199_999,
{
    let mut lo: u128 = 0;
    let mut hi: u128 = 1_200_000;
    proof {
        assert(pow5(0) == 0);
        assert((n as int) < pow5(1_200_000));
    }
    while lo + 1 < hi
        invariant
            lo < hi <= 1_200_000,
            n <= 2_000_000_000_000_000_000_000_000_000_000,
            pow5(lo as int) <= n as int,
            (n as int) < pow5(hi as int),
        decreases hi - lo,
    {
        let mid = lo + (hi - lo) / 2;
        proof {
            assert((mid as int) * (mid as int) <= 1_200_000 * 1_200_000) by (nonlinear_arith)
                requires
                    0 <= mid as int && mid as int <= 1_200_000,
            ;
        }
        let m2: u128 = mid * mid;
        proof {
            assert((m2 as int) * (m2 as int) <= 1_440_000_000_000 * 1_440_000_000_000)
                by (nonlinear_arith)
                requires
                    0 <= m2 as int && m2 as int <= 1_440_000_000_000,
            ;
        }
        let m4: u128 = m2 * m2;
        proof {
            assert((m4 as int) * (mid as int) <= 2_073_600_000_000_000_000_000_000 * 1_200_000)
                by (nonlinear_arith)
                requires
                    0 <= m4 as int && m4 as int <= 2_073_600_000_000_000_000_000_000,
                    0 <= mid as int && mid as int <= 1_200_000,
            ;
            assert((m4 as int) * (mid as int) == pow5(mid as int)) by (nonlinear_arith)
                requires
                    m2 as int == (mid as int) * (mid as int),
                    m4 as int == (m2 as int) * (m2 as int),
            ;
        }
        let m5: u128 = m4 * mid;
        if m5 <= n {
            lo = mid;
        } else {
            hi = mid;
        }
    }
    proof {
        lemma_iroot5_unique(n as nat, lo as nat);
    }
    lo
}

} // verus!
