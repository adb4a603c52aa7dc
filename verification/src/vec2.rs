//! The 2D fixed-point vector used for positions, velocities and forces.

use vstd::prelude::*;

verus! {

use crate::fixed::SCALE;
use crate::fixed::TAU_FP;
use crate::fixed::ceil_sqrt;
use crate::fixed::cos_fp;
use crate::fixed::floor_sqrt;
use crate::fixed::is_floor_sqrt;
use crate::fixed::isqrt;
use crate::fixed::isqrt_ceil;
use crate::fixed::lemma_abs_mul_le;
use crate::fixed::mul_div;
use crate::fixed::mul_div_i64;
use crate::fixed::sin_fp;
use crate::fixed::spec_cos;
use crate::fixed::spec_sin;
use crate::rng::gen_range_i64;
use vstd::arithmetic::div_mod::lemma_fundamental_div_mod;
use vstd::arithmetic::div_mod::lemma_multiply_divide_le;
use vstd::arithmetic::div_mod::lemma_div_pos_is_pos;
use vstd::math::abs;

/// A 2D vector in fixed-point steps (`SCALE` steps per simulation unit).
#[derive(Debug, Clone, Copy, PartialEq, Eq, Structural)]
pub struct Vec2 {
    pub x: i64,
    pub y: i64,
}

/// A `Vec2` from unbounded integers; meaningful when both fit in `i64`.
pub open spec fn vec2i(x: int, y: int) -> Vec2 {
    Vec2 { x: x as i64, y: y as i64 }
}

impl Vec2 {
    /// Both components are bounded by `b` in magnitude.
    pub open spec fn in_bounds(self, b: int) -> bool {
        -b <= self.x <= b && -b <= self.y <= b
    }

    /// Squared magnitude, exact in unbounded integers.
    pub open spec fn spec_mag_sq(self) -> int {
        self.x * self.x + self.y * self.y
    }

    pub open spec fn is_zero(self) -> bool {
        self.x == 0 && self.y == 0
    }

    pub open spec fn spec_add(self, other: Vec2) -> Vec2 {
        vec2i(self.x + other.x, self.y + other.y)
    }

    pub open spec fn spec_sub(self, other: Vec2) -> Vec2 {
        vec2i(self.x - other.x, self.y - other.y)
    }

    pub open spec fn spec_neg(self) -> Vec2 {
        vec2i(-self.x, -self.y)
    }

    /// Fixed-point scaling by `k` steps per unit: each component becomes
    /// `c * k / SCALE`, truncated toward zero.
    pub open spec fn spec_scale(self, k: int) -> Vec2 {
        vec2i(
            mul_div(self.x as int, k, SCALE as int),
            mul_div(self.y as int, k, SCALE as int),
        )
    }

    /// Division by an agent count: each component truncated toward zero.
    pub open spec fn spec_div_count(self, n: int) -> Vec2 {
        vec2i(mul_div(self.x as int, 1, n), mul_div(self.y as int, 1, n))
    }

    /// Division by a fixed-point scalar `s`: each component becomes
    /// `c * SCALE / s`, truncated toward zero.
    pub open spec fn spec_div_fp(self, s: int) -> Vec2 {
        vec2i(
            mul_div(self.x as int, SCALE as int, s),
            mul_div(self.y as int, SCALE as int, s),
        )
    }

    /// Squared distance between two points.
    pub open spec fn spec_dist_sq(self, other: Vec2) -> int {
        (self.x - other.x) * (self.x - other.x) + (self.y - other.y) * (self.y - other.y)
    }

    /// Normalization to magnitude `SCALE`, via the rounded-up integer square
    /// root so the result never exceeds one unit; zero stays zero.
    pub open spec fn spec_normalize(self) -> Vec2 {
        if self.is_zero() {
            self
        } else {
            let m = ceil_sqrt(self.spec_mag_sq());
            vec2i(
                mul_div(self.x as int, SCALE as int, m),
                mul_div(self.y as int, SCALE as int, m),
            )
        }
    }

    /// Magnitude capping: unchanged when the squared magnitude is within
    /// `max * max`, otherwise rescaled onto the disc of radius `max`.
    pub open spec fn spec_limit(self, max: int) -> Vec2 {
        if self.spec_mag_sq() <= max * max {
            self
        } else {
            let m = ceil_sqrt(self.spec_mag_sq());
            vec2i(mul_div(self.x as int, max, m), mul_div(self.y as int, max, m))
        }
    }

    pub fn zero() -> (r: Vec2)
        ensures
            r == (Vec2 { x: 0i64, y: 0i64 }),
            r.is_zero(),
    {
        Vec2 { x: 0, y: 0 }
    }

    /// A point drawn uniformly from `[0, max_x) x [0, max_y)`.
    pub fn random(max_x: i64, max_y: i64) -> (r: Vec2)
        requires
            0 < max_x,
            0 < max_y,
        ensures
            0 <= r.x < max_x,
            0 <= r.y < max_y,
    {
        let mut rng = rand::thread_rng();
        let x = gen_range_i64(&mut rng, 0, max_x);
        let y = gen_range_i64(&mut rng, 0, max_y);
        Vec2 { x, y }
    }

    /// A heading of roughly unit length: the cosine and sine of an angle
    /// drawn uniformly in `[0, TAU_FP)`; each component stays within one
    /// unit.
    pub fn random_unit() -> (r: Vec2)
        ensures
            r.in_bounds(SCALE as int),
            r.spec_mag_sq() <= 2 * SCALE * SCALE,
            exists|t: int|
                0 <= t < TAU_FP && r.x as int == spec_cos(t) && r.y as int == spec_sin(t),
    {
        let mut rng = rand::thread_rng();
        let angle = gen_range_i64(&mut rng, 0, TAU_FP);
        let c = cos_fp(angle);
        let s = sin_fp(angle);
        proof {
            assert(c * c + s * s <= 2 * SCALE * SCALE) by (nonlinear_arith)
                requires
                    -SCALE <= c <= SCALE,
                    -SCALE <= s <= SCALE,
            ;
            assert(0 <= angle < TAU_FP && c as int == spec_cos(angle as int) && s as int
                == spec_sin(angle as int));
        }
        Vec2 { x: c, y: s }
    }

    pub fn add(self, other: Vec2) -> (r: Vec2)
        requires
            i64::MIN <= self.x + other.x <= i64::MAX,
            i64::MIN <= self.y + other.y <= i64::MAX,
        ensures
            r == self.spec_add(other),
            r.x as int == self.x + other.x,
            r.y as int == self.y + other.y,
    {
        Vec2 { x: self.x + other.x, y: self.y + other.y }
    }

    pub fn sub(self, other: Vec2) -> (r: Vec2)
        requires
            i64::MIN <= self.x - other.x <= i64::MAX,
            i64::MIN <= self.y - other.y <= i64::MAX,
        ensures
            r == self.spec_sub(other),
            r.x as int == self.x - other.x,
            r.y as int == self.y - other.y,
    {
        Vec2 { x: self.x - other.x, y: self.y - other.y }
    }

    /// Accumulate `other` into `self` additively.
    pub fn add_assign(&mut self, other: Vec2)
        requires
            i64::MIN <= old(self).x + other.x <= i64::MAX,
            i64::MIN <= old(self).y + other.y <= i64::MAX,
        ensures
            *final(self) == old(self).spec_add(other),
            final(self).x as int == old(self).x + other.x,
            final(self).y as int == old(self).y + other.y,
    {
        self.x = self.x + other.x;
        self.y = self.y + other.y;
    }

    pub fn neg(self) -> (r: Vec2)
        requires
            i64::MIN < self.x,
            i64::MIN < self.y,
        ensures
            r == self.spec_neg(),
            r.x as int == -self.x,
            r.y as int == -self.y,
    {
        Vec2 { x: -self.x, y: -self.y }
    }

    /// Fixed-point scaling by `k` steps per unit.
    pub fn scale(self, k: i64) -> (r: Vec2)
        requires
            self.in_bounds(1_000_000_000),
            0 <= k <= 1_000_000,
        ensures
            r == self.spec_scale(k as int),
            abs(r.x as int) as int <= abs(self.x as int) * k / (SCALE as int),
            abs(r.y as int) as int <= abs(self.y as int) * k / (SCALE as int),
    {
        proof {
            lemma_abs_mul_le(self.x as int, k as int, 1_000_000_000, 1_000_000);
            lemma_abs_mul_le(self.y as int, k as int, 1_000_000_000, 1_000_000);
        }
        let x = mul_div_i64(self.x, k, SCALE);
        let y = mul_div_i64(self.y, k, SCALE);
        Vec2 { x, y }
    }

    /// Division by an agent count.
    pub fn div_count(self, n: i64) -> (r: Vec2)
        requires
            self.in_bounds(1_000_000_000_000_000_000),
            1 <= n,
        ensures
            r == self.spec_div_count(n as int),
            abs(r.x as int) as int <= abs(self.x as int) as int / (n as int),
            abs(r.y as int) as int <= abs(self.y as int) as int / (n as int),
    {
        proof {
            assert(abs(self.x as int) * 1 == abs(self.x as int));
            assert(abs(self.y as int) * 1 == abs(self.y as int));
            lemma_abs_mul_le(self.x as int, 1, 1_000_000_000_000_000_000, 1);
            lemma_abs_mul_le(self.y as int, 1, 1_000_000_000_000_000_000, 1);
        }
        let x = mul_div_i64(self.x, 1, n);
        let y = mul_div_i64(self.y, 1, n);
        Vec2 { x, y }
    }

    /// Division by a fixed-point scalar.
    pub fn div_fp(self, s: i64) -> (r: Vec2)
        requires
            self.in_bounds(1_000_000_000),
            1 <= s,
        ensures
            r == self.spec_div_fp(s as int),
            abs(r.x as int) as int <= abs(self.x as int) * SCALE / (s as int),
            abs(r.y as int) as int <= abs(self.y as int) * SCALE / (s as int),
    {
        proof {
            lemma_abs_mul_le(self.x as int, SCALE as int, 1_000_000_000, 1_000);
            lemma_abs_mul_le(self.y as int, SCALE as int, 1_000_000_000, 1_000);
        }
        let x = mul_div_i64(self.x, SCALE, s);
        let y = mul_div_i64(self.y, SCALE, s);
        Vec2 { x, y }
    }

    /// Squared magnitude.
    pub fn magnitude_squared(&self) -> (r: i64)
        requires
            self.in_bounds(2_000_000_000),
        ensures
            r as int == self.spec_mag_sq(),
            r >= 0,
    {
        proof {
            assert(0 <= self.x * self.x <= 4_000_000_000_000_000_000 && 0 <= self.y * self.y
                <= 4_000_000_000_000_000_000) by (nonlinear_arith)
                requires
                    -2_000_000_000 <= self.x <= 2_000_000_000,
                    -2_000_000_000 <= self.y <= 2_000_000_000,
            ;
        }
        self.x * self.x + self.y * self.y
    }

    /// Magnitude, as the integer square root (rounded down) of the squared
    /// magnitude.
    pub fn magnitude(&self) -> (r: i64)
        requires
            self.in_bounds(2_000_000_000),
        ensures
            r as int == floor_sqrt(self.spec_mag_sq()),
            is_floor_sqrt(self.spec_mag_sq(), r as int),
            r >= 0,
    {
        let ms = self.magnitude_squared();
        isqrt(ms)
    }

    /// Distance to another point (integer square root, rounded down).
    pub fn distance_to(&self, other: &Vec2) -> (r: i64)
        requires
            self.in_bounds(1_000_000_000),
            other.in_bounds(1_000_000_000),
        ensures
            r as int == floor_sqrt(self.spec_dist_sq(*other)),
            is_floor_sqrt(self.spec_dist_sq(*other), r as int),
            r >= 0,
    {
        let dx = self.x - other.x;
        let dy = self.y - other.y;
        proof {
            assert(0 <= dx * dx <= 4_000_000_000_000_000_000 && 0 <= dy * dy
                <= 4_000_000_000_000_000_000) by (nonlinear_arith)
                requires
                    -2_000_000_000 <= dx <= 2_000_000_000,
                    -2_000_000_000 <= dy <= 2_000_000_000,
            ;
        }
        isqrt(dx * dx + dy * dy)
    }

    /// Normalize to one unit of magnitude; the zero vector stays zero and no
    /// division by zero can happen.
    pub fn normalize(&self) -> (r: Vec2)
        requires
            self.in_bounds(1_000_000_000),
        ensures
            r == self.spec_normalize(),
            self.is_zero() ==> r == *self,
            r.spec_mag_sq() <= SCALE * SCALE,
            r.in_bounds(SCALE as int),
            r.x * self.x >= 0,
            r.y * self.y >= 0,
    {
        let ms = self.magnitude_squared();
        if ms == 0 {
            proof {
                assert(self.is_zero()) by (nonlinear_arith)
                    requires
                        self.x * self.x + self.y * self.y == 0,
                ;
            }
            *self
        } else {
            let m = isqrt_ceil(ms);
            proof {
                assert(m >= 1) by (nonlinear_arith)
                    requires
                        1 <= ms,
                        ms as int <= m * m,
                        0 <= m,
                ;
                lemma_scaled_div_caps(self.x as int, self.y as int, SCALE as int, m as int);
                lemma_abs_mul_le(self.x as int, SCALE as int, 1_000_000_000, 1_000);
                lemma_abs_mul_le(self.y as int, SCALE as int, 1_000_000_000, 1_000);
            }
            let x = mul_div_i64(self.x, SCALE, m);
            let y = mul_div_i64(self.y, SCALE, m);
            Vec2 { x, y }
        }
    }

    /// Cap the magnitude at `max`, preserving the direction of each
    /// component; a vector already within the cap is returned unchanged.
    pub fn limit(&self, max: i64) -> (r: Vec2)
        requires
            self.in_bounds(1_000_000_000),
            0 <= max <= 1_000_000_000,
        ensures
            r == self.spec_limit(max as int),
            self.spec_mag_sq() <= max * max ==> r == *self,
            r.spec_mag_sq() <= max * max,
            r.in_bounds(max as int),
            r.x * self.x >= 0,
            r.y * self.y >= 0,
    {
        let ms = self.magnitude_squared();
        proof {
            assert(0 <= max * max <= i64::MAX) by (nonlinear_arith)
                requires
                    0 <= max <= 1_000_000_000,
            ;
        }
        if ms <= max * max {
            proof {
                assert(self.x * self.x >= 0 && self.y * self.y >= 0 && self.x * self.x
                    <= self.spec_mag_sq() && self.y * self.y <= self.spec_mag_sq())
                    by (nonlinear_arith)
                ;
                assert(self.in_bounds(max as int)) by (nonlinear_arith)
                    requires
                        self.x * self.x <= max * max,
                        self.y * self.y <= max * max,
                        0 <= max,
                ;
            }
            *self
        } else {
            let m = isqrt_ceil(ms);
            proof {
                assert(m >= 1) by (nonlinear_arith)
                    requires
                        1 <= ms,
                        ms as int <= m * m,
                        0 <= m,
                ;
                lemma_scaled_div_caps(self.x as int, self.y as int, max as int, m as int);
                lemma_abs_mul_le(self.x as int, max as int, 1_000_000_000, 1_000_000_000);
                lemma_abs_mul_le(self.y as int, max as int, 1_000_000_000, 1_000_000_000);
            }
            let x = mul_div_i64(self.x, max, m);
            let y = mul_div_i64(self.y, max, m);
            Vec2 { x, y }
        }
    }
}

/// Scaling both components of a vector by `s / m`, truncating toward zero,
/// keeps the squared magnitude within `s * s` whenever `m * m` bounds the
/// original squared magnitude; each component keeps its sign and stays
/// within `s`.
pub proof fn lemma_scaled_div_caps(x: int, y: int, s: int, m: int)
    requires
        0 <= s,
        1 <= m,
        x * x + y * y <= m * m,
    ensures
        mul_div(x, s, m) * mul_div(x, s, m) + mul_div(y, s, m) * mul_div(y, s, m) <= s * s,
        mul_div(x, s, m) * x >= 0,
        mul_div(y, s, m) * y >= 0,
        abs(mul_div(x, s, m)) <= s,
        abs(mul_div(y, s, m)) <= s,
{
    lemma_scaled_div_component(x, y, s, m);
    lemma_scaled_div_component(y, x, s, m);
    let qx = abs(mul_div(x, s, m));
    let qy = abs(mul_div(y, s, m));
    assert(qx * qx == mul_div(x, s, m) * mul_div(x, s, m)) by (nonlinear_arith)
        requires
            qx == abs(mul_div(x, s, m)),
    ;
    assert(qy * qy == mul_div(y, s, m) * mul_div(y, s, m)) by (nonlinear_arith)
        requires
            qy == abs(mul_div(y, s, m)),
    ;
    assert((qx * qx + qy * qy) * (m * m) <= (s * s) * (m * m)) by (nonlinear_arith)
        requires
            qx * qx * (m * m) <= (x * x) * (s * s),
            qy * qy * (m * m) <= (y * y) * (s * s),
            x * x + y * y <= m * m,
            0 <= s,
    ;
    assert(qx * qx + qy * qy <= s * s) by (nonlinear_arith)
        requires
            (qx * qx + qy * qy) * (m * m) <= (s * s) * (m * m),
            1 <= m,
    ;
}

/// One component of the truncating rescale: sign preserved, magnitude at
/// most `s`, and the square bounded through the denominator.
proof fn lemma_scaled_div_component(x: int, y: int, s: int, m: int)
    requires
        0 <= s,
        1 <= m,
        x * x + y * y <= m * m,
    ensures
        mul_div(x, s, m) * x >= 0,
        abs(mul_div(x, s, m)) <= s,
        abs(mul_div(x, s, m)) * abs(mul_div(x, s, m)) * (m * m) <= (x * x) * (s * s),
{
    let xa = abs(x);
    let q = (xa * s) / m;
    lemma_div_pos_is_pos(xa * s, m);
    assert(mul_div(x, s, m) == if x >= 0 { q } else { -q });
    assert(abs(mul_div(x, s, m)) == q);
    assert(mul_div(x, s, m) * x >= 0) by (nonlinear_arith)
        requires
            0 <= q,
            mul_div(x, s, m) == if x >= 0 { q } else { -q },
    ;
    // xa <= m, from xa * xa <= m * m
    assert(xa * xa <= m * m) by (nonlinear_arith)
        requires
            xa == abs(x),
            x * x + y * y <= m * m,
    ;
    assert(xa <= m) by (nonlinear_arith)
        requires
            0 <= xa,
            1 <= m,
            xa * xa <= m * m,
    ;
    // q <= s
    assert(xa * s <= m * s) by (nonlinear_arith)
        requires
            0 <= s,
            xa <= m,
    ;
    lemma_multiply_divide_le(xa * s, m, s);
    // q * m <= xa * s, then square both sides
    lemma_fundamental_div_mod(xa * s, m);
    assert(q * m <= xa * s) by (nonlinear_arith)
        requires
            xa * s == m * q + (xa * s) % m,
            0 <= (xa * s) % m,
    ;
    assert(q * q * (m * m) <= (xa * xa) * (s * s)) by (nonlinear_arith)
        requires
            0 <= q * m,
            q * m <= xa * s,
            0 <= q,
            0 <= xa,
            0 <= s,
            1 <= m,
    ;
    assert((xa * xa) * (s * s) == (x * x) * (s * s)) by (nonlinear_arith)
        requires
            xa == abs(x),
    ;
}

} // verus!
