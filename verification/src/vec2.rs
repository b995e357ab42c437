use crate::num::clamp01_fp;
use crate::num::div_t;
use crate::num::isqrt_u64;
use crate::num::lemma_div_t_bounds;
use crate::num::lemma_lerp_fp_hull;
use crate::num::lerp_fp;
use crate::num::mul_div;
use crate::num::sqrt_floor;
use crate::num::SCALE;
use crate::rng::rand_i64;
use crate::scalar::Scalar;
use crate::scalar::FP_LIMIT;
use vstd::arithmetic::div_mod::lemma_div_is_ordered;
use vstd::arithmetic::div_mod::lemma_div_multiples_vanish;
use vstd::prelude::*;

verus! {

/// Magnitude within which the simulation keeps every coordinate; the squared
/// length of such a vector still fits in a `u64`.
pub const VEC_LIMIT: i64 = 2_000_000_000;

/// A fixed-point 2D vector: `x` and `y` count thousandths of a unit.
#[derive(Debug, Clone, Copy, PartialEq, Eq, Structural)]
pub struct Vec2 {
    pub x: i64,
    pub y: i64,
}

/// The squared length of `v`, in squared fixed-point units.
pub open spec fn len_sq(v: Vec2) -> int {
    v.x * v.x + v.y * v.y
}

/// The length of `v` in fixed-point units: the floor of the true length.
pub open spec fn length_of(v: Vec2) -> int {
    sqrt_floor(len_sq(v) as nat) as int
}

/// The squared distance between `a` and `b`.
pub open spec fn dist_sq(a: Vec2, b: Vec2) -> int {
    (a.x - b.x) * (a.x - b.x) + (a.y - b.y) * (a.y - b.y)
}

/// The distance between `a` and `b` in fixed-point units (floor).
pub open spec fn dist(a: Vec2, b: Vec2) -> int {
    sqrt_floor(dist_sq(a, b) as nat) as int
}

/// One coordinate of the normalization of a vector of length `len`: zero
/// stays zero, anything else is scaled onto the unit circle.
pub open spec fn norm_coord(c: int, len: int) -> int {
    if len == 0 {
        0
    } else {
        div_t(c * SCALE, len)
    }
}

/// The normalization of `v` as a value: each coordinate scaled onto the unit
/// circle, the zero vector unchanged.
pub open spec fn spec_normalized(v: Vec2) -> Vec2 {
    Vec2 {
        x: norm_coord(v.x as int, length_of(v)) as i64,
        y: norm_coord(v.y as int, length_of(v)) as i64,
    }
}

/// The componentwise difference of two vectors as a value.
pub open spec fn spec_sub(a: Vec2, b: Vec2) -> Vec2 {
    Vec2 { x: (a.x - b.x) as i64, y: (a.y - b.y) as i64 }
}

/// Componentwise interpolation of a vector, as a value.
pub open spec fn vec_lerp(a: Vec2, b: Vec2, t: int) -> Vec2 {
    Vec2 { x: lerp_fp(a.x as int, b.x as int, t) as i64, y: lerp_fp(a.y as int, b.y as int, t) as i64 }
}

/// A heading of unit length up to the fixed-point grain: inside the unit box
/// with a squared length within two thousandths of one.
pub open spec fn unit_band(v: Vec2) -> bool {
    &&& -SCALE <= v.x <= SCALE
    &&& -SCALE <= v.y <= SCALE
    &&& SCALE * SCALE - 2 * SCALE <= len_sq(v) <= SCALE * SCALE
}

/// Squares grow with the magnitude; used to turn coordinate bounds into
/// squared-length bounds and back.
proof fn lemma_coord_le_length(v: Vec2)
    requires
        len_sq(v) <= u64::MAX,
    ensures
        v.x <= length_of(v),
        -length_of(v) <= v.x,
        v.y <= length_of(v),
        -length_of(v) <= v.y,
{
    let l = length_of(v);
    crate::num::lemma_sqrt_floor_bounds(len_sq(v) as nat);
    assert(v.x * v.x <= len_sq(v) && v.y * v.y <= len_sq(v)) by (nonlinear_arith);
    assert(len_sq(v) < (l + 1) * (l + 1));
    if v.x > l {
        assert((l + 1) * (l + 1) <= v.x * v.x) by (nonlinear_arith)
            requires
                l + 1 <= v.x,
                l >= 0,
        ;
    }
    if v.x < -l {
        assert((l + 1) * (l + 1) <= v.x * v.x) by (nonlinear_arith)
            requires
                v.x <= -(l + 1),
                l >= 0,
        ;
    }
    if v.y > l {
        assert((l + 1) * (l + 1) <= v.y * v.y) by (nonlinear_arith)
            requires
                l + 1 <= v.y,
                l >= 0,
        ;
    }
    if v.y < -l {
        assert((l + 1) * (l + 1) <= v.y * v.y) by (nonlinear_arith)
            requires
                v.y <= -(l + 1),
                l >= 0,
        ;
    }
}

/// A normalized coordinate never leaves `[-SCALE, SCALE]`.
pub proof fn lemma_norm_coord_bounds(c: int, len: int)
    requires
        len >= 0,
        -len <= c <= len,
    ensures
        -SCALE <= norm_coord(c, len) <= SCALE,
{
    if len != 0 {
        let s = SCALE as int;
        if c >= 0 {
            assert(c * s <= len * s) by (nonlinear_arith)
                requires
                    c <= len,
                    s >= 0,
            ;
            lemma_div_is_ordered(c * s, len * s, len);
            lemma_div_multiples_vanish(s, len);
            lemma_div_t_bounds(c * s, len);
        } else {
            assert((-c) * s <= len * s && c * s == -((-c) * s)) by (nonlinear_arith)
                requires
                    -c <= len,
                    s >= 0,
            ;
            lemma_div_is_ordered((-c) * s, len * s, len);
            lemma_div_multiples_vanish(s, len);
            lemma_div_t_bounds((-c) * s, len);
        }
    }
}

impl Vec2 {
    pub fn new(x: i64, y: i64) -> (r: Self)
        ensures
            r.x == x,
            r.y == y,
    {
        Vec2 { x, y }
    }

    pub fn zero() -> (r: Self)
        ensures
            r.x == 0,
            r.y == 0,
    {
        Vec2 { x: 0, y: 0 }
    }

    /// A point drawn uniformly from the half-open box
    /// `x_lo..x_hi` × `y_lo..y_hi`.
    pub fn new_random(x_lo: i64, x_hi: i64, y_lo: i64, y_hi: i64) -> (r: Self)
        requires
            x_lo < x_hi,
            y_lo < y_hi,
        ensures
            x_lo <= r.x < x_hi,
            y_lo <= r.y < y_hi,
    {
        Vec2 { x: rand_i64(x_lo, x_hi), y: rand_i64(y_lo, y_hi) }
    }

    /// A random direction: a random point of the unit box, normalized. The
    /// rare zero draw falls back to the positive x axis, so the result is
    /// never the zero vector.
    pub fn random_dir() -> (r: Self)
        ensures
            unit_band(r),
            !(r.x == 0 && r.y == 0),
    {
        let x: i64 = rand_i64(-SCALE, SCALE + 1);
        proof {
            assert(0 <= x * x <= SCALE * SCALE) by (nonlinear_arith)
                requires
                    -1000 <= x <= 1000,
            ;
        }
        let ysq: i64 = SCALE * SCALE - x * x;
        let y0: i64 = isqrt_u64(ysq as u64) as i64;
        proof {
            assert(y0 * y0 <= ysq);
            assert(0 <= y0 <= SCALE) by (nonlinear_arith)
                requires
                    y0 >= 0,
                    y0 * y0 <= 1_000_000,
            ;
            assert(x * x + y0 * y0 > SCALE * SCALE - 2 * SCALE - 1) by (nonlinear_arith)
                requires
                    ysq < (y0 + 1) * (y0 + 1),
                    ysq == SCALE * SCALE - x * x,
                    0 <= y0 <= 1000,
            ;
        }
        let y: i64 = if rand_i64(0, 2) == 0 {
            y0
        } else {
            -y0
        };
        proof {
            assert(y * y == y0 * y0) by (nonlinear_arith)
                requires
                    y == y0 || y == -y0,
            ;
            assert(!(x == 0 && y == 0)) by (nonlinear_arith)
                requires
                    x * x + y * y > 997_999,
            ;
        }
        Vec2 { x, y }
    }

    /// The length of the vector, rounded down to fixed-point units.
    pub fn length(self) -> (r: i64)
        requires
            -VEC_LIMIT <= self.x <= VEC_LIMIT,
            -VEC_LIMIT <= self.y <= VEC_LIMIT,
        ensures
            r == length_of(self),
            r >= 0,
    {
        proof {
            assert(self.x as int * self.x as int <= 4_000_000_000_000_000_000
                && self.x as int * self.x as int >= 0 && self.y as int * self.y as int
                <= 4_000_000_000_000_000_000 && self.y as int * self.y as int >= 0)
                by (nonlinear_arith)
                requires
                    -VEC_LIMIT <= self.x <= VEC_LIMIT,
                    -VEC_LIMIT <= self.y <= VEC_LIMIT,
            ;
        }
        let xx: i128 = (self.x as i128) * (self.x as i128);
        let yy: i128 = (self.y as i128) * (self.y as i128);
        let n: u64 = (xx + yy) as u64;
        let r: u64 = isqrt_u64(n);
        r as i64
    }

    /// The squared length, in squared fixed-point units.
    pub fn length_squared(self) -> (r: i64)
        requires
            -VEC_LIMIT <= self.x <= VEC_LIMIT,
            -VEC_LIMIT <= self.y <= VEC_LIMIT,
        ensures
            r == len_sq(self),
            r >= 0,
    {
        proof {
            assert(self.x as int * self.x as int <= 4_000_000_000_000_000_000
                && self.x as int * self.x as int >= 0 && self.y as int * self.y as int
                <= 4_000_000_000_000_000_000 && self.y as int * self.y as int >= 0)
                by (nonlinear_arith)
                requires
                    -VEC_LIMIT <= self.x <= VEC_LIMIT,
                    -VEC_LIMIT <= self.y <= VEC_LIMIT,
            ;
        }
        let xx: i128 = (self.x as i128) * (self.x as i128);
        let yy: i128 = (self.y as i128) * (self.y as i128);
        (xx + yy) as i64
    }

    /// The distance to `other`, rounded down to fixed-point units.
    pub fn distance(self, other: Self) -> (r: i64)
        requires
            -FP_LIMIT <= self.x <= FP_LIMIT,
            -FP_LIMIT <= self.y <= FP_LIMIT,
            -FP_LIMIT <= other.x <= FP_LIMIT,
            -FP_LIMIT <= other.y <= FP_LIMIT,
        ensures
            r == dist(self, other),
            r >= 0,
    {
        let d = Vec2 { x: self.x - other.x, y: self.y - other.y };
        d.length()
    }

    /// The squared distance to `other`.
    pub fn distance_squared(self, other: Self) -> (r: i64)
        requires
            -FP_LIMIT <= self.x <= FP_LIMIT,
            -FP_LIMIT <= self.y <= FP_LIMIT,
            -FP_LIMIT <= other.x <= FP_LIMIT,
            -FP_LIMIT <= other.y <= FP_LIMIT,
        ensures
            r == dist_sq(self, other),
            r >= 0,
    {
        let d = Vec2 { x: self.x - other.x, y: self.y - other.y };
        d.length_squared()
    }

    /// The fixed-point dot product: `(x·x' + y·y') / SCALE`, truncated.
    pub fn dot(self, other: Self) -> (r: i64)
        requires
            -FP_LIMIT <= self.x <= FP_LIMIT,
            -FP_LIMIT <= self.y <= FP_LIMIT,
            -FP_LIMIT <= other.x <= FP_LIMIT,
            -FP_LIMIT <= other.y <= FP_LIMIT,
        ensures
            r == div_t(self.x * other.x + self.y * other.y, SCALE as int),
    {
        proof {
            assert(-1_000_000_000_000_000_000 <= self.x as int * other.x as int
                <= 1_000_000_000_000_000_000 && -1_000_000_000_000_000_000 <= self.y as int
                * other.y as int <= 1_000_000_000_000_000_000) by (nonlinear_arith)
                requires
                    -FP_LIMIT <= self.x <= FP_LIMIT,
                    -FP_LIMIT <= self.y <= FP_LIMIT,
                    -FP_LIMIT <= other.x <= FP_LIMIT,
                    -FP_LIMIT <= other.y <= FP_LIMIT,
            ;
        }
        let px: i64 = ((self.x as i128) * (other.x as i128)) as i64;
        let py: i64 = ((self.y as i128) * (other.y as i128)) as i64;
        crate::num::div_i64(px + py, SCALE)
    }

    /// Interpolate from `self` toward `to`, coordinate by coordinate, by the
    /// fraction `t` (thousandths, clamped to the unit interval).
    pub fn lerp(self, to: Self, t: i64) -> (r: Self)
        requires
            -FP_LIMIT <= self.x <= FP_LIMIT,
            -FP_LIMIT <= self.y <= FP_LIMIT,
            -FP_LIMIT <= to.x <= FP_LIMIT,
            -FP_LIMIT <= to.y <= FP_LIMIT,
        ensures
            r.x == lerp_fp(self.x as int, to.x as int, t as int),
            r.y == lerp_fp(self.y as int, to.y as int, t as int),
            self.x <= to.x ==> self.x <= r.x <= to.x,
            to.x <= self.x ==> to.x <= r.x <= self.x,
            self.y <= to.y ==> self.y <= r.y <= to.y,
            to.y <= self.y ==> to.y <= r.y <= self.y,
    {
        let tc: i64 = if t < 0 {
            0
        } else if t > SCALE {
            SCALE
        } else {
            t
        };
        proof {
            assert(tc == clamp01_fp(t as int));
            lemma_lerp_fp_hull(self.x as int, to.x as int, t as int);
            lemma_lerp_fp_hull(self.y as int, to.y as int, t as int);
        }
        let sx: i64 = mul_div(to.x - self.x, tc, SCALE);
        let sy: i64 = mul_div(to.y - self.y, tc, SCALE);
        Vec2 { x: self.x + sx, y: self.y + sy }
    }

    /// The vector scaled onto the unit circle; the zero vector stays zero
    /// rather than raising a division error.
    pub fn normalized(self) -> (r: Self)
        requires
            -VEC_LIMIT <= self.x <= VEC_LIMIT,
            -VEC_LIMIT <= self.y <= VEC_LIMIT,
        ensures
            r == spec_normalized(self),
            r.x == norm_coord(self.x as int, length_of(self)),
            r.y == norm_coord(self.y as int, length_of(self)),
            -SCALE <= r.x <= SCALE,
            -SCALE <= r.y <= SCALE,
            self.x == 0 && self.y == 0 ==> r.x == 0 && r.y == 0,
    {
        let len: i64 = self.length();
        proof {
            assert(len_sq(self) <= u64::MAX) by (nonlinear_arith)
                requires
                    -VEC_LIMIT <= self.x <= VEC_LIMIT,
                    -VEC_LIMIT <= self.y <= VEC_LIMIT,
            ;
            lemma_coord_le_length(self);
            lemma_norm_coord_bounds(self.x as int, len as int);
            lemma_norm_coord_bounds(self.y as int, len as int);
        }
        if len > 0 {
            Vec2 { x: mul_div(self.x, SCALE, len), y: mul_div(self.y, SCALE, len) }
        } else {
            proof {
                crate::num::lemma_sqrt_floor_bounds(len_sq(self) as nat);
                assert(self.x * self.x >= 0 && self.y * self.y >= 0) by (nonlinear_arith);
                assert(self.x * self.x == 0 ==> self.x == 0) by (nonlinear_arith);
                assert(self.y * self.y == 0 ==> self.y == 0) by (nonlinear_arith);
            }
            Vec2 { x: 0, y: 0 }
        }
    }

    /// Normalize in place; see `normalized`.
    pub fn normalize(&mut self)
        requires
            -VEC_LIMIT <= old(self).x <= VEC_LIMIT,
            -VEC_LIMIT <= old(self).y <= VEC_LIMIT,
        ensures
            final(self).x == norm_coord(old(self).x as int, length_of(*old(self))),
            final(self).y == norm_coord(old(self).y as int, length_of(*old(self))),
            -SCALE <= final(self).x <= SCALE,
            -SCALE <= final(self).y <= SCALE,
    {
        *self = self.normalized();
    }

    /// Clamp each coordinate into the box spanned by `min` and `max`.
    pub fn clamp(&mut self, min: Self, max: Self)
        requires
            min.x <= max.x,
            min.y <= max.y,
        ensures
            final(self).x == if old(self).x < min.x {
                min.x
            } else if old(self).x > max.x {
                max.x
            } else {
                old(self).x
            },
            final(self).y == if old(self).y < min.y {
                min.y
            } else if old(self).y > max.y {
                max.y
            } else {
                old(self).y
            },
    {
        let x: i64 = if self.x < min.x {
            min.x
        } else if self.x > max.x {
            max.x
        } else {
            self.x
        };
        let y: i64 = if self.y < min.y {
            min.y
        } else if self.y > max.y {
            max.y
        } else {
            self.y
        };
        *self = Vec2 { x, y };
    }

    pub fn add(self, rhs: Self) -> (r: Self)
        requires
            i64::MIN <= self.x + rhs.x <= i64::MAX,
            i64::MIN <= self.y + rhs.y <= i64::MAX,
        ensures
            r.x == self.x + rhs.x,
            r.y == self.y + rhs.y,
    {
        Vec2 { x: self.x + rhs.x, y: self.y + rhs.y }
    }

    pub fn sub(self, rhs: Self) -> (r: Self)
        requires
            i64::MIN <= self.x - rhs.x <= i64::MAX,
            i64::MIN <= self.y - rhs.y <= i64::MAX,
        ensures
            r.x == self.x - rhs.x,
            r.y == self.y - rhs.y,
    {
        Vec2 { x: self.x - rhs.x, y: self.y - rhs.y }
    }

    /// Scale by a fixed-point factor: each coordinate becomes
    /// `coord * factor / SCALE`, truncated.
    pub fn mul(self, factor: Scalar) -> (r: Self)
        requires
            -VEC_LIMIT <= self.x <= VEC_LIMIT,
            -VEC_LIMIT <= self.y <= VEC_LIMIT,
            -FP_LIMIT <= factor.value <= FP_LIMIT,
        ensures
            r.x == div_t(self.x * factor.value, SCALE as int),
            r.y == div_t(self.y * factor.value, SCALE as int),
    {
        Vec2 { x: mul_div(self.x, factor.value, SCALE), y: mul_div(self.y, factor.value, SCALE) }
    }

    /// Divide by a positive fixed-point factor: each coordinate becomes
    /// `coord * SCALE / factor`, truncated.
    pub fn div(self, factor: Scalar) -> (r: Self)
        requires
            factor.value > 0,
            -VEC_LIMIT <= self.x <= VEC_LIMIT,
            -VEC_LIMIT <= self.y <= VEC_LIMIT,
        ensures
            r.x == div_t(self.x * SCALE, factor.value as int),
            r.y == div_t(self.y * SCALE, factor.value as int),
    {
        Vec2 { x: mul_div(self.x, SCALE, factor.value), y: mul_div(self.y, SCALE, factor.value) }
    }

    /// Divide each coordinate by a positive integer count, truncating: the
    /// step of the running means in the schooling mechanism.
    pub fn div_count(self, count: i64) -> (r: Self)
        requires
            count > 0,
            self.x > i64::MIN,
            self.y > i64::MIN,
        ensures
            r.x == div_t(self.x as int, count as int),
            r.y == div_t(self.y as int, count as int),
    {
        Vec2 {
            x: crate::num::div_i64(self.x, count),
            y: crate::num::div_i64(self.y, count),
        }
    }

    pub fn neg(self) -> (r: Self)
        requires
            self.x > i64::MIN,
            self.y > i64::MIN,
        ensures
            r.x == -self.x,
            r.y == -self.y,
    {
        Vec2 { x: -self.x, y: -self.y }
    }
}

impl Default for Vec2 {
    fn default() -> (r: Self)
        ensures
            r.x == 0,
            r.y == 0,
    {
        Vec2 { x: 0, y: 0 }
    }
}

impl From<[i64; 2]> for Vec2 {
    fn from(arr: [i64; 2]) -> (r: Self) {
        Vec2 { x: arr[0], y: arr[1] }
    }
}

impl vstd::std_specs::convert::FromSpecImpl<[i64; 2]> for Vec2 {
    open spec fn obeys_from_spec() -> bool {
        true
    }

    open spec fn from_spec(arr: [i64; 2]) -> Vec2 {
        Vec2 { x: arr@[0], y: arr@[1] }
    }
}

impl From<(i64, i64)> for Vec2 {
    fn from(pair: (i64, i64)) -> (r: Self) {
        Vec2 { x: pair.0, y: pair.1 }
    }
}

impl vstd::std_specs::convert::FromSpecImpl<(i64, i64)> for Vec2 {
    open spec fn obeys_from_spec() -> bool {
        true
    }

    open spec fn from_spec(pair: (i64, i64)) -> Vec2 {
        Vec2 { x: pair.0, y: pair.1 }
    }
}

impl From<Vec2> for (i64, i64) {
    fn from(v: Vec2) -> (r: (i64, i64)) {
        (v.x, v.y)
    }
}

impl vstd::std_specs::convert::FromSpecImpl<Vec2> for (i64, i64) {
    open spec fn obeys_from_spec() -> bool {
        true
    }

    open spec fn from_spec(v: Vec2) -> (i64, i64) {
        (v.x, v.y)
    }
}

impl Vec2 {
    /// The coordinates as an array, inverse of `Vec2::from` on arrays.
    pub fn to_array(self) -> (r: [i64; 2])
        ensures
            r@ == seq![self.x, self.y],
            r@[0] == self.x,
            r@[1] == self.y,
    {
        let r: [i64; 2] = [self.x, self.y];
        proof {
            assert(r@ =~= seq![self.x, self.y]);
        }
        r
    }
}

/// Normalizing the zero vector gives the zero vector: the definition divides
/// only by a positive length, so no division error can arise.
pub proof fn lemma_normalize_zero()
    ensures
        spec_normalized(Vec2 { x: 0, y: 0 }) == (Vec2 { x: 0, y: 0 }),
{
    crate::num::lemma_sqrt_floor_bounds(0);
}

/// Turning a vector into a coordinate pair and back gives the vector again,
/// and a pair turned into a vector and back gives the pair: the conversions
/// between `Vec2` and plain coordinates are exact inverses.
pub proof fn lemma_vec2_pair_round_trip(v: Vec2, pair: (i64, i64))
    ensures
        <(i64, i64) as vstd::std_specs::convert::FromSpec<Vec2>>::from_spec(
            <Vec2 as vstd::std_specs::convert::FromSpec<(i64, i64)>>::from_spec(pair),
        ) == pair,
        <Vec2 as vstd::std_specs::convert::FromSpec<(i64, i64)>>::from_spec(
            <(i64, i64) as vstd::std_specs::convert::FromSpec<Vec2>>::from_spec(v),
        ) == v,
{
}

/// Turning an array into a vector keeps both coordinates, and `to_array`
/// recovers the array's view: the array conversions are exact inverses too.
pub proof fn lemma_vec2_array_round_trip(arr: [i64; 2])
    ensures
        ({
            let v = <Vec2 as vstd::std_specs::convert::FromSpec<[i64; 2]>>::from_spec(arr);
            seq![v.x, v.y] =~= arr@
        }),
{
    assert(arr@.len() == 2);
}

} // verus!
