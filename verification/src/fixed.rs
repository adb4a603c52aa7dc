//! Fixed-point scalar helpers: scale constants, integer square roots,
//! truncating multiply-then-divide, and a sine approximation.

use vstd::prelude::*;

verus! {

use vstd::arithmetic::div_mod::lemma_div_is_ordered;
use vstd::arithmetic::div_mod::lemma_div_pos_is_pos;
use vstd::arithmetic::div_mod::lemma_multiply_divide_le;
use vstd::math::abs;

/// Fixed-point steps per simulation unit.
pub const SCALE: i64 = 1000;

/// Reflective margin kept from every arena edge: one unit.
pub const MARGIN: i64 = 1000;

/// Pi, in thousandths of a radian.
pub const PI_FP: i64 = 3141;

/// Pi / 2, in thousandths of a radian.
pub const HALF_PI_FP: i64 = 1570;

/// A full turn, two times `PI_FP`; sine phases live in `[0, TAU_FP)`.
pub const TAU_FP: i64 = 6282;

/// `r` is the integer square root of `n`, rounded down.
pub open spec fn is_floor_sqrt(n: int, r: int) -> bool {
    0 <= r && r * r <= n && n < (r + 1) * (r + 1)
}

/// `r` is the integer square root of `n`, rounded up.
pub open spec fn is_ceil_sqrt(n: int, r: int) -> bool {
    0 <= r && n <= r * r && (r == 0 || (r - 1) * (r - 1) < n)
}

/// The integer square root of `n`, rounded down.
pub open spec fn floor_sqrt(n: int) -> int {
    choose|r: int| is_floor_sqrt(n, r)
}

/// The integer square root of `n`, rounded up.
pub open spec fn ceil_sqrt(n: int) -> int {
    choose|r: int| is_ceil_sqrt(n, r)
}

/// `floor_sqrt(n)` satisfies its defining property for every `n >= 0`.
pub proof fn lemma_floor_sqrt(n: int)
    requires
        0 <= n,
    ensures
        is_floor_sqrt(n, floor_sqrt(n)),
    decreases n,
{
    if n == 0 {
        assert(is_floor_sqrt(0, 0));
    } else {
        lemma_floor_sqrt(n - 1);
        let r = floor_sqrt(n - 1);
        if (r + 1) * (r + 1) <= n {
            assert(n == (r + 1) * (r + 1));
            assert((r + 2) * (r + 2) > n) by (nonlinear_arith)
                requires
                    0 <= r,
                    n == (r + 1) * (r + 1),
            ;
            assert(is_floor_sqrt(n, r + 1));
        } else {
            assert(is_floor_sqrt(n, r));
        }
    }
}

/// Any `r` with the floor property equals `floor_sqrt(n)`.
pub proof fn lemma_floor_sqrt_unique(n: int, r: int)
    requires
        0 <= n,
        is_floor_sqrt(n, r),
    ensures
        r == floor_sqrt(n),
{
    lemma_floor_sqrt(n);
    let s = floor_sqrt(n);
    assert(r == s) by (nonlinear_arith)
        requires
            0 <= r,
            0 <= s,
            r * r <= n,
            n < (r + 1) * (r + 1),
            s * s <= n,
            n < (s + 1) * (s + 1),
    ;
}

/// `ceil_sqrt(n)` satisfies its defining property for every `n >= 0`.
pub proof fn lemma_ceil_sqrt(n: int)
    requires
        0 <= n,
    ensures
        is_ceil_sqrt(n, ceil_sqrt(n)),
{
    lemma_floor_sqrt(n);
    let r = floor_sqrt(n);
    if r * r == n {
        if r >= 1 {
            assert((r - 1) * (r - 1) < n) by (nonlinear_arith)
                requires
                    1 <= r,
                    n == r * r,
            ;
        }
        assert(is_ceil_sqrt(n, r));
    } else {
        assert(is_ceil_sqrt(n, r + 1));
    }
}

/// Any `r` with the ceiling property equals `ceil_sqrt(n)`.
pub proof fn lemma_ceil_sqrt_unique(n: int, r: int)
    requires
        0 <= n,
        is_ceil_sqrt(n, r),
    ensures
        r == ceil_sqrt(n),
{
    lemma_ceil_sqrt(n);
    let s = ceil_sqrt(n);
    assert(r == s) by (nonlinear_arith)
        requires
            0 <= r,
            0 <= s,
            n <= r * r,
            r == 0 || (r - 1) * (r - 1) < n,
            n <= s * s,
            s == 0 || (s - 1) * (s - 1) < n,
            0 <= n,
    ;
}

/// Integer square root, rounded down.
pub fn isqrt(n: i64) -> (r: i64)
    requires
        0 <= n,
    ensures
        r as int == floor_sqrt(n as int),
        is_floor_sqrt(n as int, r as int),
{
    let mut lo: i64 = 0;
    let mut hi: i64 = if n < 3_037_000_499 {
        n + 1
    } else {
        3_037_000_500
    };
    proof {
        if n < 3_037_000_499 {
            assert(n < (n + 1) * (n + 1)) by (nonlinear_arith)
                requires
                    0 <= n,
            ;
        } else {
            assert((n as int) < 3_037_000_500 * 3_037_000_500);
        }
    }
    while hi - lo > 1
        invariant
            0 <= lo < hi <= 3_037_000_500,
            lo * lo <= n,
            n < hi * hi,
        decreases hi - lo,
    {
        let mid: i64 = lo + (hi - lo) / 2;
        proof {
            assert(lo < mid < hi);
            assert(mid * mid <= 3_037_000_499 * 3_037_000_499) by (nonlinear_arith)
                requires
                    0 < mid <= 3_037_000_499,
            ;
        }
        if mid * mid <= n {
            lo = mid;
        } else {
            hi = mid;
        }
    }
    proof {
        lemma_floor_sqrt_unique(n as int, lo as int);
    }
    lo
}

/// Integer square root, rounded up.
pub fn isqrt_ceil(n: i64) -> (r: i64)
    requires
        0 <= n,
    ensures
        r as int == ceil_sqrt(n as int),
        is_ceil_sqrt(n as int, r as int),
{
    let s = isqrt(n);
    proof {
        assert(s <= 3_037_000_499) by (nonlinear_arith)
            requires
                0 <= s,
                s * s <= n,
                n <= 0x7fff_ffff_ffff_ffff,
        ;
    }
    let r: i64 = if s * s == n {
        s
    } else {
        s + 1
    };
    proof {
        if s * s == n {
            if s >= 1 {
                assert((s - 1) * (s - 1) < n) by (nonlinear_arith)
                    requires
                        1 <= s,
                        n == s * s,
                ;
            }
            assert(is_ceil_sqrt(n as int, r as int));
        } else {
            assert(is_ceil_sqrt(n as int, r as int));
        }
        lemma_ceil_sqrt_unique(n as int, r as int);
    }
    r
}

/// Multiply by `num` then divide by `den`, truncating toward zero.
pub open spec fn mul_div(a: int, num: int, den: int) -> int {
    if a >= 0 {
        (a * num) / den
    } else {
        -(((-a) * num) / den)
    }
}

/// Truncating fixed-point multiply-then-divide on `i64`.
pub fn mul_div_i64(a: i64, num: i64, den: i64) -> (r: i64)
    requires
        0 <= num,
        1 <= den,
        i64::MIN < a,
        abs(a as int) * num <= i64::MAX,
    ensures
        r as int == mul_div(a as int, num as int, den as int),
        abs(r as int) == abs(a as int) * (num as int) / (den as int),
{
    let aa: i64 = if a < 0 {
        -a
    } else {
        a
    };
    let q: i64 = (aa * num) / den;
    proof {
        lemma_div_pos_is_pos((aa * num) as int, den as int);
    }
    if a < 0 {
        -q
    } else {
        q
    }
}

/// The magnitude of a truncating multiply-then-divide is monotone in the
/// magnitude of its first argument.
pub proof fn lemma_mul_div_bound(a: int, num: int, den: int, cap: int)
    requires
        0 <= num,
        1 <= den,
        abs(a) <= cap,
    ensures
        abs(mul_div(a, num, den)) <= cap * num / den,
{
    let aa = abs(a);
    assert(aa * num <= cap * num) by (nonlinear_arith)
        requires
            0 <= num,
            0 <= aa <= cap,
    ;
    lemma_div_is_ordered(aa * num, cap * num, den);
    lemma_div_pos_is_pos(aa * num, den);
}

/// Absolute value on `i64`.
pub fn abs_i64(v: i64) -> (r: i64)
    requires
        i64::MIN < v,
    ensures
        r as int == abs(v as int),
        r >= 0,
{
    if v < 0 {
        -v
    } else {
        v
    }
}

/// Bounding a product through bounds on both factors.
pub proof fn lemma_abs_mul_le(a: int, num: int, ca: int, cn: int)
    requires
        abs(a) <= ca,
        0 <= num <= cn,
    ensures
        abs(a) * num <= ca * cn,
{
    assert(abs(a) * num <= ca * cn) by (nonlinear_arith)
        requires
            0 <= abs(a) <= ca,
            0 <= num <= cn,
    ;
}

/// A truncating multiply-then-divide bound, pushed through constant bounds
/// on the numerator's two factors.
pub proof fn lemma_div_chain_bound(r: int, a: int, num: int, den: int, ca: int, cn: int)
    requires
        abs(r) as int <= abs(a) * num / den,
        abs(a) <= ca,
        0 <= num <= cn,
        1 <= den,
    ensures
        abs(r) as int <= ca * cn / den,
{
    lemma_abs_mul_le(a, num, ca, cn);
    lemma_div_is_ordered(abs(a) * num, ca * cn, den);
}

/// Bhaskara's rational sine approximation on a half turn, scaled so that
/// `t` is in thousandths of a radian and the result is in `[0, SCALE]`.
pub open spec fn sin_half_fp(t: int) -> int {
    16 * (t * (PI_FP - t)) * SCALE / (5 * (PI_FP * PI_FP) - 4 * (t * (PI_FP - t)))
}

/// Sine over a full turn `[0, TAU_FP)`, odd around `PI_FP`.
pub open spec fn spec_sin(t: int) -> int {
    if t < PI_FP {
        sin_half_fp(t)
    } else {
        -sin_half_fp(t - PI_FP)
    }
}

/// Cosine over a full turn, as sine shifted a quarter turn.
pub open spec fn spec_cos(t: int) -> int {
    if t + HALF_PI_FP < TAU_FP {
        spec_sin(t + HALF_PI_FP)
    } else {
        spec_sin(t + HALF_PI_FP - TAU_FP)
    }
}

/// Fixed-point sine on `[0, TAU_FP)`; the result never leaves `[-SCALE, SCALE]`.
pub fn sin_fp(t: i64) -> (r: i64)
    requires
        0 <= t < TAU_FP,
    ensures
        r as int == spec_sin(t as int),
        -SCALE <= r <= SCALE,
{
    let neg: bool = t >= PI_FP;
    let half: i64 = if t >= PI_FP {
        t - PI_FP
    } else {
        t
    };
    proof {
        assert(0 <= half <= 3140);
        assert(0 <= half * (3141 - half) && 4 * (half * (3141 - half)) <= 3141 * 3141)
            by (nonlinear_arith)
            requires
                0 <= half <= 3141,
        ;
    }
    let prod: i64 = half * (PI_FP - half);
    let num: i64 = 16 * prod * SCALE;
    let den: i64 = 5 * (PI_FP * PI_FP) - 4 * prod;
    proof {
        assert(4 * prod <= 9_865_881);
        assert(den >= 39_463_524);
        assert(num <= SCALE * den);
        lemma_multiply_divide_le(num as int, den as int, SCALE as int);
        lemma_div_pos_is_pos(num as int, den as int);
    }
    let s: i64 = num / den;
    if neg {
        -s
    } else {
        s
    }
}

/// Fixed-point cosine on `[0, TAU_FP)`; the result never leaves `[-SCALE, SCALE]`.
pub fn cos_fp(t: i64) -> (r: i64)
    requires
        0 <= t < TAU_FP,
    ensures
        r as int == spec_cos(t as int),
        -SCALE <= r <= SCALE,
{
    let shifted: i64 = if t + HALF_PI_FP < TAU_FP {
        t + HALF_PI_FP
    } else {
        t + HALF_PI_FP - TAU_FP
    };
    sin_fp(shifted)
}

} // verus!
