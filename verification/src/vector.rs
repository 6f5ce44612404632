//! Vectors in fixed point.
//!
//! `V2` and `V3` are the mathematical vectors that the contracts speak of, with
//! unbounded components; `Vec2` and `Vec3` are the values the engine computes
//! with, whose components are 64-bit numbers of millionths.

use vstd::prelude::*;
use crate::fixed::{
    isqrt, isqrt_u128, is_isqrt, lemma_isqrt_dominates, lemma_isqrt_exists, lemma_isqrt_is,
    lemma_mul_within, lemma_trunc_div_monotone, lemma_trunc_div_within, magnitude, trunc_div, ONE,
    ONE_SQ,
};

verus! {

/// The largest component that vector arithmetic accepts.
pub const COORD_LIMIT: i64 = 1_000_000_000_000_000_000;

/// The largest component of a direction that `travel` accepts.
pub const DIRECTION_LIMIT: i64 = 100_000_000;

/// The greatest speed that `travel` accepts.
pub const SPEED_LIMIT: i64 = 1_000_000_000_000;

/// A point of the plane, or a pair of axis readings.
pub struct V2 {
    pub x: int,
    pub y: int,
}

/// A point or a direction of space.
pub struct V3 {
    pub x: int,
    pub y: int,
    pub z: int,
}

impl V2 {
    /// Both components lie in `-limit ..= limit`.
    pub open spec fn within(self, limit: int) -> bool {
        &&& -limit <= self.x <= limit
        &&& -limit <= self.y <= limit
    }
}

impl V3 {
    /// The vector without length.
    pub open spec fn zero() -> V3 {
        V3 { x: 0, y: 0, z: 0 }
    }

    /// The first body axis: forward.
    pub open spec fn unit_x() -> V3 {
        V3 { x: ONE as int, y: 0, z: 0 }
    }

    /// The second body axis: up.
    pub open spec fn unit_y() -> V3 {
        V3 { x: 0, y: ONE as int, z: 0 }
    }

    /// The third body axis: to the side.
    pub open spec fn unit_z() -> V3 {
        V3 { x: 0, y: 0, z: ONE as int }
    }

    /// Every component lies in `-limit ..= limit`.
    pub open spec fn within(self, limit: int) -> bool {
        &&& -limit <= self.x <= limit
        &&& -limit <= self.y <= limit
        &&& -limit <= self.z <= limit
    }

    /// The sum of two vectors.
    pub open spec fn plus(self, o: V3) -> V3 {
        V3 { x: self.x + o.x, y: self.y + o.y, z: self.z + o.z }
    }

    /// The difference of two vectors: the way from `o` to `self`.
    pub open spec fn minus(self, o: V3) -> V3 {
        V3 { x: self.x - o.x, y: self.y - o.y, z: self.z - o.z }
    }

    /// Each component multiplied by the whole number `k`.
    pub open spec fn times(self, k: int) -> V3 {
        V3 { x: self.x * k, y: self.y * k, z: self.z * k }
    }

    /// Each component divided by `d`, rounded toward zero.
    pub open spec fn over(self, d: int) -> V3 {
        V3 { x: trunc_div(self.x, d), y: trunc_div(self.y, d), z: trunc_div(self.z, d) }
    }

    /// The vector multiplied by the fixed-point number `k`.
    pub open spec fn scaled(self, k: int) -> V3 {
        self.times(k).over(ONE as int)
    }

    /// The dot product, which carries the scale of its operands twice.
    pub open spec fn dot(self, o: V3) -> int {
        self.x * o.x + self.y * o.y + self.z * o.z
    }

    /// The cross product, which carries the scale of its operands twice.
    pub open spec fn cross(self, o: V3) -> V3 {
        V3 {
            x: self.y * o.z - self.z * o.y,
            y: self.z * o.x - self.x * o.z,
            z: self.x * o.y - self.y * o.x,
        }
    }

    /// The square of the length.
    pub open spec fn len_sq(self) -> int {
        self.dot(self)
    }

    /// The length, rounded down.
    pub open spec fn length(self) -> int {
        isqrt(self.len_sq())
    }

    /// The direction of the vector as a vector of length one, or the zero
    /// vector where the vector has no length. Each component is rounded
    /// toward zero; how close to one the length comes is proved in the
    /// module `unit_length`.
    pub open spec fn normalized(self) -> V3 {
        if self.len_sq() == 0 {
            V3::zero()
        } else {
            self.times(ONE as int).over(self.length())
        }
    }

    /// The point that lies the fraction `t` of the way from `self` to `o`.
    /// Beyond `0 ..= ONE` it lies on the same line, outside the two points.
    pub open spec fn lerp(self, o: V3, t: int) -> V3 {
        self.plus(o.minus(self).scaled(t))
    }

    /// The way made in `dt` millionths of a second at `speed` along the direction `self`.
    pub open spec fn travel(self, speed: int, dt: int) -> V3 {
        self.times(speed * dt).over(ONE_SQ as int)
    }
}

/// A vector that has some length has a length of at least one millionth.
pub proof fn lemma_length_positive(v: V3)
    requires
        v.len_sq() != 0,
    ensures
        v.length() >= 1,
        is_isqrt(v.len_sq(), v.length()),
{
    assert(v.len_sq() >= 1) by (nonlinear_arith)
        requires
            v.len_sq() == v.x * v.x + v.y * v.y + v.z * v.z,
            v.len_sq() != 0,
    ;
    lemma_isqrt_exists(v.len_sq());
    lemma_isqrt_dominates(v.len_sq(), 1);
}

/// No component of a vector is longer than the vector.
pub proof fn lemma_component_le_length(v: V3)
    ensures
        v.len_sq() >= 0,
        magnitude(v.x) <= v.length(),
        magnitude(v.y) <= v.length(),
        magnitude(v.z) <= v.length(),
{
    let n = v.len_sq();
    assert(n >= magnitude(v.x) * magnitude(v.x) && n >= magnitude(v.y) * magnitude(v.y) && n
        >= magnitude(v.z) * magnitude(v.z) && n >= 0) by (nonlinear_arith)
        requires
            n == v.x * v.x + v.y * v.y + v.z * v.z,
    ;
    lemma_isqrt_dominates(n, magnitude(v.x));
    lemma_isqrt_dominates(n, magnitude(v.y));
    lemma_isqrt_dominates(n, magnitude(v.z));
}

/// A normalized vector has no component beyond one.
pub proof fn lemma_normalized_within(v: V3)
    ensures
        v.normalized().within(ONE as int),
{
    if v.len_sq() != 0 {
        lemma_length_positive(v);
        lemma_component_le_length(v);
        let len = v.length();
        lemma_unit_component(v.x, len);
        lemma_unit_component(v.y, len);
        lemma_unit_component(v.z, len);
    }
}

/// A number that is no longer than `len` gives at most one when divided by it.
pub proof fn lemma_unit_component(c: int, len: int)
    requires
        len >= 1,
        magnitude(c) <= len,
    ensures
        -ONE <= trunc_div(c * ONE, len) <= ONE,
{
    assert(-(ONE * len) <= c * ONE <= ONE * len) by (nonlinear_arith)
        requires
            -len <= c <= len,
    ;
    lemma_trunc_div_within(c * ONE, len, ONE as int);
}

/// The length of a vector is bounded by its largest component.
pub proof fn lemma_length_within(v: V3, limit: int)
    requires
        limit >= 0,
        v.within(limit),
    ensures
        0 <= v.len_sq() <= 3 * (limit * limit),
        0 <= v.length() <= 2 * limit,
{
    lemma_mul_within(v.x, v.x, limit, limit);
    lemma_mul_within(v.y, v.y, limit, limit);
    lemma_mul_within(v.z, v.z, limit, limit);
    assert(v.x * v.x >= 0 && v.y * v.y >= 0 && v.z * v.z >= 0) by (nonlinear_arith);
    lemma_isqrt_exists(v.len_sq());
    let r = v.length();
    if r > 2 * limit {
        assert(r * r > 3 * (limit * limit)) by (nonlinear_arith)
            requires
                r >= 2 * limit + 1,
                limit >= 0,
        ;
    }
}

/// A bounded vector multiplied by a bounded fixed-point number is bounded.
pub proof fn lemma_scaled_within(v: V3, k: int, limit: int, k_limit: int)
    requires
        v.within(limit),
        -k_limit <= k <= k_limit,
        limit >= 0,
        k_limit >= 0,
    ensures
        v.times(k).within(limit * k_limit),
        v.scaled(k).within(trunc_div(limit * k_limit, ONE as int) + 1),
{
    lemma_mul_within(v.x, k, limit, k_limit);
    lemma_mul_within(v.y, k, limit, k_limit);
    lemma_mul_within(v.z, k, limit, k_limit);
    let b = limit * k_limit;
    assert(b >= 0) by (nonlinear_arith)
        requires
            b == limit * k_limit,
            limit >= 0,
            k_limit >= 0,
    ;
    lemma_trunc_div_monotone(v.x * k, b, ONE as int);
    lemma_trunc_div_monotone(-b, v.x * k, ONE as int);
    lemma_trunc_div_monotone(v.y * k, b, ONE as int);
    lemma_trunc_div_monotone(-b, v.y * k, ONE as int);
    lemma_trunc_div_monotone(v.z * k, b, ONE as int);
    lemma_trunc_div_monotone(-b, v.z * k, ONE as int);
}

/// The way made in one step is no longer, along any axis, than speed times time.
pub proof fn lemma_travel_within(dir: V3, speed: int, dt: int, reach: int)
    requires
        dir.within(ONE as int),
        0 <= speed,
        0 <= dt,
        speed * dt <= reach * ONE,
        reach >= 0,
    ensures
        dir.travel(speed, dt).within(reach),
{
    let k = speed * dt;
    assert(k >= 0) by (nonlinear_arith)
        requires
            k == speed * dt,
            speed >= 0,
            dt >= 0,
    ;
    assert(reach * ONE_SQ == (reach * ONE) * ONE) by (nonlinear_arith);
    lemma_mul_within(dir.x, k, ONE as int, reach * ONE);
    lemma_mul_within(dir.y, k, ONE as int, reach * ONE);
    lemma_mul_within(dir.z, k, ONE as int, reach * ONE);
    assert(ONE * (reach * ONE) == reach * ONE_SQ) by (nonlinear_arith);
    lemma_trunc_div_within(dir.x * k, ONE_SQ as int, reach);
    lemma_trunc_div_within(dir.y * k, ONE_SQ as int, reach);
    lemma_trunc_div_within(dir.z * k, ONE_SQ as int, reach);
}

/// The product of two 64-bit numbers, in 128 bits.
pub fn mul_wide(a: i64, b: i64) -> (r: i128)
    ensures
        r == a * b,
{
    proof {
        lemma_mul_within(a as int, b as int, 0x8000_0000_0000_0000, 0x8000_0000_0000_0000);
        assert(0x8000_0000_0000_0000int * 0x8000_0000_0000_0000int
            == 0x4000_0000_0000_0000_0000_0000_0000_0000int) by (nonlinear_arith);
    }
    (a as i128) * (b as i128)
}

/// A pair of fixed-point numbers.
#[derive(Clone, Copy, Debug, PartialEq, Eq, Structural)]
pub struct Vec2 {
    pub x: i64,
    pub y: i64,
}

impl View for Vec2 {
    type V = V2;

    open spec fn view(&self) -> V2 {
        V2 { x: self.x as int, y: self.y as int }
    }
}

impl Vec2 {
    /// The pair of `x` and `y`.
    pub fn new(x: i64, y: i64) -> (r: Vec2)
        ensures
            r.x == x,
            r.y == y,
    {
        Vec2 { x, y }
    }

    /// The pair of nothing and nothing.
    pub fn zero() -> (r: Vec2)
        ensures
            r.x == 0,
            r.y == 0,
    {
        Vec2 { x: 0, y: 0 }
    }
}

/// A point or a direction of space in fixed point.
#[derive(Clone, Copy, Debug, PartialEq, Eq, Structural)]
pub struct Vec3 {
    pub x: i64,
    pub y: i64,
    pub z: i64,
}

impl View for Vec3 {
    type V = V3;

    open spec fn view(&self) -> V3 {
        V3 { x: self.x as int, y: self.y as int, z: self.z as int }
    }
}

impl Vec3 {
    /// The vector with the components `x`, `y` and `z`.
    pub fn new(x: i64, y: i64, z: i64) -> (r: Vec3)
        ensures
            r@ == (V3 { x: x as int, y: y as int, z: z as int }),
    {
        Vec3 { x, y, z }
    }

    /// The vector without length.
    pub fn zero() -> (r: Vec3)
        ensures
            r@ == V3::zero(),
    {
        Vec3 { x: 0, y: 0, z: 0 }
    }

    /// Whether every component lies in `-limit ..= limit`.
    pub fn is_within(&self, limit: i64) -> (r: bool)
        requires
            limit >= 0,
        ensures
            r == self@.within(limit as int),
    {
        -limit <= self.x && self.x <= limit && -limit <= self.y && self.y <= limit && -limit
            <= self.z && self.z <= limit
    }

    /// The sum of two vectors.
    pub fn plus(&self, o: &Vec3) -> (r: Vec3)
        requires
            self@.within(COORD_LIMIT as int),
            o@.within(COORD_LIMIT as int),
        ensures
            r@ == self@.plus(o@),
    {
        Vec3 { x: self.x + o.x, y: self.y + o.y, z: self.z + o.z }
    }

    /// The difference of two vectors: the way from `o` to `self`.
    pub fn minus(&self, o: &Vec3) -> (r: Vec3)
        requires
            self@.within(COORD_LIMIT as int),
            o@.within(COORD_LIMIT as int),
        ensures
            r@ == self@.minus(o@),
    {
        Vec3 { x: self.x - o.x, y: self.y - o.y, z: self.z - o.z }
    }

    /// The dot product, in 128 bits.
    pub fn dot(&self, o: &Vec3) -> (r: i128)
        requires
            self@.within(COORD_LIMIT as int),
            o@.within(COORD_LIMIT as int),
        ensures
            r == self@.dot(o@),
    {
        proof {
            lemma_mul_within(self.x as int, o.x as int, COORD_LIMIT as int, COORD_LIMIT as int);
            lemma_mul_within(self.y as int, o.y as int, COORD_LIMIT as int, COORD_LIMIT as int);
            lemma_mul_within(self.z as int, o.z as int, COORD_LIMIT as int, COORD_LIMIT as int);
            assert(COORD_LIMIT * COORD_LIMIT
                == 1_000_000_000_000_000_000_000_000_000_000_000_000int) by (nonlinear_arith);
        }
        mul_wide(self.x, o.x) + mul_wide(self.y, o.y) + mul_wide(self.z, o.z)
    }

    /// The square of the length, in 128 bits.
    pub fn len_sq(&self) -> (r: u128)
        requires
            self@.within(COORD_LIMIT as int),
        ensures
            r == self@.len_sq(),
    {
        let d: i128 = self.dot(self);
        proof {
            lemma_length_within(self@, COORD_LIMIT as int);
        }
        d as u128
    }

    /// The length, rounded down.
    pub fn length(&self) -> (r: i64)
        requires
            self@.within(COORD_LIMIT as int),
        ensures
            r == self@.length(),
            0 <= r <= 2 * COORD_LIMIT,
    {
        let n: u128 = self.len_sq();
        let root: u64 = isqrt_u128(n);
        proof {
            lemma_length_within(self@, COORD_LIMIT as int);
        }
        root as i64
    }

    /// The direction of the vector as a vector of length one,
    /// or the zero vector where the vector has no length.
    pub fn normalize_or_zero(&self) -> (r: Vec3)
        requires
            self@.within(COORD_LIMIT as int),
        ensures
            r@ == self@.normalized(),
            r@.within(ONE as int),
    {
        let len: i64 = self.length();
        proof {
            lemma_normalized_within(self@);
            lemma_component_le_length(self@);
            lemma_isqrt_exists(self@.len_sq());
            if self@.len_sq() != 0 {
                lemma_length_positive(self@);
            } else {
                lemma_isqrt_is(0, 0);
            }
        }
        if len == 0 {
            Vec3 { x: 0, y: 0, z: 0 }
        } else {
            let x: i128 = mul_wide(self.x, ONE) / (len as i128);
            let y: i128 = mul_wide(self.y, ONE) / (len as i128);
            let z: i128 = mul_wide(self.z, ONE) / (len as i128);
            Vec3 { x: x as i64, y: y as i64, z: z as i64 }
        }
    }

    /// The way made in `dt` millionths of a second at `speed` along the direction `self`.
    pub fn travel(&self, speed: i64, dt: u32) -> (r: Vec3)
        requires
            self@.within(DIRECTION_LIMIT as int),
            0 <= speed <= SPEED_LIMIT,
        ensures
            r@ == self@.travel(speed as int, dt as int),
    {
        proof {
            lemma_mul_within(speed as int, dt as int, SPEED_LIMIT as int, 0x1_0000_0000);
            let k = speed * dt;
            let bound = SPEED_LIMIT * 0x1_0000_0000;
            lemma_mul_within(self.x as int, k, DIRECTION_LIMIT as int, bound);
            lemma_mul_within(self.y as int, k, DIRECTION_LIMIT as int, bound);
            lemma_mul_within(self.z as int, k, DIRECTION_LIMIT as int, bound);
            lemma_trunc_div_within(self.x * k, ONE_SQ as int, 429_496_729_600_000_000);
            lemma_trunc_div_within(self.y * k, ONE_SQ as int, 429_496_729_600_000_000);
            lemma_trunc_div_within(self.z * k, ONE_SQ as int, 429_496_729_600_000_000);
        }
        let k: i128 = (speed as i128) * (dt as i128);
        let x: i128 = (self.x as i128) * k / ONE_SQ;
        let y: i128 = (self.y as i128) * k / ONE_SQ;
        let z: i128 = (self.z as i128) * k / ONE_SQ;
        Vec3 { x: x as i64, y: y as i64, z: z as i64 }
    }

    /// The vector multiplied by the fixed-point number `k`.
    pub fn scaled(&self, k: i64) -> (r: Vec3)
        requires
            self@.scaled(k as int).within(COORD_LIMIT as int),
        ensures
            r@ == self@.scaled(k as int),
    {
        let x: i128 = mul_wide(self.x, k) / (ONE as i128);
        let y: i128 = mul_wide(self.y, k) / (ONE as i128);
        let z: i128 = mul_wide(self.z, k) / (ONE as i128);
        Vec3 { x: x as i64, y: y as i64, z: z as i64 }
    }
}

} // verus!
