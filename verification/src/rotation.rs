//! Orientations in fixed point.
//!
//! An orientation is a quaternion whose four components are millionths. The
//! engine keeps every orientation it holds within a small tolerance of unit
//! length: what a product or a blend leaves outside that tolerance is
//! rescaled. Four numbers that cannot be rescaled, such as four zeros, stand
//! for the identity; the module `unit_length` proves that no product and no
//! blend of two orientations is among them.

use vstd::prelude::*;
use crate::fixed::{
    isqrt, isqrt_u128, lemma_mul_within, lemma_trunc_div_exact, lemma_trunc_div_within, trunc_div,
    ONE, ONE_SQ,
};
use crate::vector::{mul_wide, Vec3, COORD_LIMIT, V3};

verus! {

/// The largest component of a vector that can be turned by an orientation.
pub const ROTATE_LIMIT: i64 = 50_000_000_000_000_000;

/// The least squared length of an orientation: eight millionths short of one.
pub const ROTATION_NORM_MIN: i128 = 999_984_000_000;

/// The greatest squared length of an orientation: one millionth over one.
pub const ROTATION_NORM_MAX: i128 = 1_000_002_000_000;

/// A quaternion with unbounded components.
pub struct Q4 {
    pub x: int,
    pub y: int,
    pub z: int,
    pub w: int,
}

impl Q4 {
    /// The orientation that turns nothing.
    pub open spec fn identity() -> Q4 {
        Q4 { x: 0, y: 0, z: 0, w: ONE as int }
    }

    /// Every component lies in `-limit ..= limit`.
    pub open spec fn within(self, limit: int) -> bool {
        &&& -limit <= self.x <= limit
        &&& -limit <= self.y <= limit
        &&& -limit <= self.z <= limit
        &&& -limit <= self.w <= limit
    }

    /// The vector part.
    pub open spec fn axis(self) -> V3 {
        V3 { x: self.x, y: self.y, z: self.z }
    }

    /// The dot product of two quaternions, which carries their scale twice.
    pub open spec fn dot(self, o: Q4) -> int {
        self.x * o.x + self.y * o.y + self.z * o.z + self.w * o.w
    }

    /// The square of the length.
    pub open spec fn norm_sq(self) -> int {
        self.dot(self)
    }

    /// The quaternion is of unit length, within the tolerance of the scale.
    pub open spec fn is_rotation(self) -> bool {
        ROTATION_NORM_MIN <= self.norm_sq() <= ROTATION_NORM_MAX
    }

    /// Each component multiplied by the whole number `k`.
    pub open spec fn times(self, k: int) -> Q4 {
        Q4 { x: self.x * k, y: self.y * k, z: self.z * k, w: self.w * k }
    }

    /// Each component divided by `d`, rounded toward zero.
    pub open spec fn over(self, d: int) -> Q4 {
        Q4 {
            x: trunc_div(self.x, d),
            y: trunc_div(self.y, d),
            z: trunc_div(self.z, d),
            w: trunc_div(self.w, d),
        }
    }

    /// The quaternion brought to unit length: divided by the next whole number
    /// above its length, so that rounding never carries it past one.
    pub open spec fn rescaled(self) -> Q4 {
        self.times(ONE as int).over(isqrt(self.norm_sq()) + 1)
    }

    /// The orientation that the quaternion stands for: itself where it is of
    /// unit length, else rescaled, and the identity where rescaling does not
    /// reach unit length (as with the zero quaternion).
    pub open spec fn settled(self) -> Q4 {
        if self.is_rotation() {
            self
        } else if self.rescaled().is_rotation() {
            self.rescaled()
        } else {
            Q4::identity()
        }
    }

    /// The Hamilton product, which carries the scale of its factors twice.
    pub open spec fn hamilton(self, o: Q4) -> Q4 {
        Q4 {
            x: self.w * o.x + self.x * o.w + self.y * o.z - self.z * o.y,
            y: self.w * o.y - self.x * o.z + self.y * o.w + self.z * o.x,
            z: self.w * o.z + self.x * o.y - self.y * o.x + self.z * o.w,
            w: self.w * o.w - self.x * o.x - self.y * o.y - self.z * o.z,
        }
    }

    /// The Hamilton product, brought back to the scale of one factor.
    pub open spec fn product(self, o: Q4) -> Q4 {
        self.hamilton(o).over(ONE as int)
    }

    /// The orientation reached by turning by `o` in the frame that `self` has
    /// reached: `o` is applied first to a vector, then `self`.
    pub open spec fn compose(self, o: Q4) -> Q4 {
        self.product(o).settled()
    }

    /// The vector `v` turned by the orientation.
    pub open spec fn rotate(self, v: V3) -> V3 {
        let b = self.axis();
        let spin = self.w * self.w - b.dot(b);
        v.times(spin).plus(b.times(2 * v.dot(b))).plus(b.cross(v).times(2 * self.w)).over(
            ONE_SQ as int,
        )
    }

    /// The end of a blend that starts at `self`: `end` or its negative,
    /// which is the same orientation, whichever is nearer.
    pub open spec fn nearer(self, end: Q4) -> Q4 {
        if self.dot(end) >= 0 {
            end
        } else {
            end.times(-1)
        }
    }

    /// The point that lies the fraction `t` of the way along the straight
    /// line from `self` to the nearer end.
    pub open spec fn mix(self, end: Q4, t: int) -> Q4 {
        let to = self.nearer(end);
        Q4 {
            x: self.x + trunc_div((to.x - self.x) * t, ONE as int),
            y: self.y + trunc_div((to.y - self.y) * t, ONE as int),
            z: self.z + trunc_div((to.z - self.z) * t, ONE as int),
            w: self.w + trunc_div((to.w - self.w) * t, ONE as int),
        }
    }

    /// The blend that lies the fraction `t` of the way from `self` to `end`,
    /// taken along the shorter of the two arcs and brought back to unit length.
    pub open spec fn lerp(self, end: Q4, t: int) -> Q4 {
        self.mix(end, t).settled()
    }
}

/// An orientation has no component beyond one.
pub proof fn lemma_rotation_within(q: Q4)
    requires
        q.is_rotation(),
    ensures
        q.within(ONE as int),
{
    let n = q.norm_sq();
    assert(q.x * q.x <= n && q.y * q.y <= n && q.z * q.z <= n && q.w * q.w <= n)
        by (nonlinear_arith)
        requires
            n == q.x * q.x + q.y * q.y + q.z * q.z + q.w * q.w,
    ;
    lemma_square_at_most(q.x);
    lemma_square_at_most(q.y);
    lemma_square_at_most(q.z);
    lemma_square_at_most(q.w);
}

/// A number whose square is at most the greatest squared length lies within one.
proof fn lemma_square_at_most(c: int)
    requires
        c * c <= ROTATION_NORM_MAX,
    ensures
        -ONE <= c <= ONE,
{
    if c > ONE {
        assert(c * c >= (ONE + 1) * (ONE + 1)) by (nonlinear_arith)
            requires
                c >= ONE + 1,
        ;
    }
    if c < -ONE {
        assert(c * c >= (ONE + 1) * (ONE + 1)) by (nonlinear_arith)
            requires
                c <= -(ONE + 1),
        ;
    }
}

/// What `settled` gives is an orientation.
pub proof fn lemma_settled_is_rotation(q: Q4)
    ensures
        q.settled().is_rotation(),
{
    assert(Q4::identity().norm_sq() == ONE_SQ) by (nonlinear_arith)
        requires
            Q4::identity().norm_sq() == 0 * 0 + 0 * 0 + 0 * 0 + ONE * ONE,
    ;
}

/// To settle what is settled changes nothing.
pub proof fn lemma_settled_twice(q: Q4)
    ensures
        q.settled().settled() == q.settled(),
{
    lemma_settled_is_rotation(q);
}

/// The negative of an orientation is an orientation.
pub proof fn lemma_negative_is_rotation(q: Q4)
    ensures
        q.times(-1).norm_sq() == q.norm_sq(),
        q.times(-1).within(ONE as int) == q.within(ONE as int),
{
    let m = q.times(-1);
    assert(m.x * m.x + m.y * m.y + m.z * m.z + m.w * m.w == q.x * q.x + q.y * q.y + q.z * q.z
        + q.w * q.w) by (nonlinear_arith)
        requires
            m.x == q.x * -1,
            m.y == q.y * -1,
            m.z == q.z * -1,
            m.w == q.w * -1,
    ;
}

/// A blend that goes none of the way stays at its start, and one that goes
/// all of the way arrives at the nearer end.
pub proof fn lemma_lerp_ends(from: Q4, end: Q4)
    requires
        from.is_rotation(),
        end.is_rotation(),
    ensures
        from.lerp(end, 0) == from,
        from.lerp(end, ONE as int) == from.nearer(end),
{
    let to = from.nearer(end);
    lemma_negative_is_rotation(end);
    assert((to.x - from.x) * 0 == 0 && (to.y - from.y) * 0 == 0 && (to.z - from.z) * 0 == 0 && (
    to.w - from.w) * 0 == 0) by (nonlinear_arith);
    lemma_trunc_div_exact(to.x - from.x, ONE as int);
    lemma_trunc_div_exact(to.y - from.y, ONE as int);
    lemma_trunc_div_exact(to.z - from.z, ONE as int);
    lemma_trunc_div_exact(to.w - from.w, ONE as int);
    assert(from.mix(end, 0) == from);
    assert(from.mix(end, ONE as int) == to);
}

/// Turning by the identity afterwards changes no orientation.
pub proof fn lemma_compose_identity(q: Q4)
    requires
        q.is_rotation(),
    ensures
        q.compose(Q4::identity()) == q,
{
    let id = Q4::identity();
    lemma_trunc_div_exact(q.x, ONE as int);
    lemma_trunc_div_exact(q.y, ONE as int);
    lemma_trunc_div_exact(q.z, ONE as int);
    lemma_trunc_div_exact(q.w, ONE as int);
    assert(q.w * id.x + q.x * id.w + q.y * id.z - q.z * id.y == q.x * ONE) by (nonlinear_arith)
        requires
            id.x == 0,
            id.y == 0,
            id.z == 0,
            id.w == ONE,
    ;
    assert(q.w * id.y - q.x * id.z + q.y * id.w + q.z * id.x == q.y * ONE) by (nonlinear_arith)
        requires
            id.x == 0,
            id.y == 0,
            id.z == 0,
            id.w == ONE,
    ;
    assert(q.w * id.z + q.x * id.y - q.y * id.x + q.z * id.w == q.z * ONE) by (nonlinear_arith)
        requires
            id.x == 0,
            id.y == 0,
            id.z == 0,
            id.w == ONE,
    ;
    assert(q.w * id.w - q.x * id.x - q.y * id.y - q.z * id.z == q.w * ONE) by (nonlinear_arith)
        requires
            id.x == 0,
            id.y == 0,
            id.z == 0,
            id.w == ONE,
    ;
    assert(q.product(id) == q);
}

/// The identity turns no vector.
pub proof fn lemma_identity_rotates_nothing(v: V3)
    ensures
        Q4::identity().rotate(v) == v,
{
    let q = Q4::identity();
    let b = q.axis();
    assert(b == V3::zero());
    assert(b.dot(b) == 0) by (nonlinear_arith)
        requires
            b.dot(b) == b.x * b.x + b.y * b.y + b.z * b.z,
            b.x == 0,
            b.y == 0,
            b.z == 0,
    ;
    assert(q.w * q.w == ONE_SQ) by (nonlinear_arith)
        requires
            q.w == ONE,
    ;
    let d = 2 * v.dot(b);
    assert(b.times(d) == V3::zero()) by (nonlinear_arith)
        requires
            b.x == 0,
            b.y == 0,
            b.z == 0,
            b.times(d) == (V3 { x: b.x * d, y: b.y * d, z: b.z * d }),
    ;
    let c = b.cross(v);
    assert(c == V3::zero()) by (nonlinear_arith)
        requires
            b.x == 0,
            b.y == 0,
            b.z == 0,
            c == (V3 {
                x: b.y * v.z - b.z * v.y,
                y: b.z * v.x - b.x * v.z,
                z: b.x * v.y - b.y * v.x,
            }),
    ;
    assert(c.times(2 * q.w) == V3::zero()) by (nonlinear_arith)
        requires
            c.x == 0,
            c.y == 0,
            c.z == 0,
            c.times(2 * q.w) == (V3 {
                x: c.x * (2 * q.w),
                y: c.y * (2 * q.w),
                z: c.z * (2 * q.w),
            }),
    ;
    lemma_trunc_div_exact(v.x, ONE_SQ as int);
    lemma_trunc_div_exact(v.y, ONE_SQ as int);
    lemma_trunc_div_exact(v.z, ONE_SQ as int);
}

/// A vector turned by an orientation grows, along any axis, to at most
/// thirteen times its largest component.
pub proof fn lemma_rotate_within(q: Q4, v: V3, limit: int)
    requires
        q.within(ONE as int),
        v.within(limit),
        limit >= 0,
    ensures
        q.rotate(v).within(13 * limit),
        v.times(q.w * q.w - q.axis().dot(q.axis())).within(3 * limit * ONE_SQ),
        -(3 * limit * ONE) <= v.dot(q.axis()) <= 3 * limit * ONE,
        q.axis().cross(v).within(2 * limit * ONE),
        -(3 * ONE_SQ) <= q.w * q.w - q.axis().dot(q.axis()) <= ONE_SQ,
{
    let one = ONE as int;
    let b = q.axis();
    lemma_mul_within(q.x, q.x, one, one);
    lemma_mul_within(q.y, q.y, one, one);
    lemma_mul_within(q.z, q.z, one, one);
    lemma_mul_within(q.w, q.w, one, one);
    assert(q.x * q.x >= 0 && q.y * q.y >= 0 && q.z * q.z >= 0 && q.w * q.w >= 0)
        by (nonlinear_arith);
    let spin = q.w * q.w - b.dot(b);
    assert(-(3 * ONE_SQ) <= spin <= ONE_SQ);
    lemma_mul_within(v.x, spin, limit, 3 * ONE_SQ);
    lemma_mul_within(v.y, spin, limit, 3 * ONE_SQ);
    lemma_mul_within(v.z, spin, limit, 3 * ONE_SQ);
    lemma_mul_within(v.x, b.x, limit, one);
    lemma_mul_within(v.y, b.y, limit, one);
    lemma_mul_within(v.z, b.z, limit, one);
    let d = 2 * v.dot(b);
    assert(-(6 * limit * ONE) <= d <= 6 * limit * ONE);
    lemma_mul_within(b.x, d, one, 6 * limit * ONE);
    lemma_mul_within(b.y, d, one, 6 * limit * ONE);
    lemma_mul_within(b.z, d, one, 6 * limit * ONE);
    lemma_mul_within(b.y, v.z, one, limit);
    lemma_mul_within(b.z, v.y, one, limit);
    lemma_mul_within(b.z, v.x, one, limit);
    lemma_mul_within(b.x, v.z, one, limit);
    lemma_mul_within(b.x, v.y, one, limit);
    lemma_mul_within(b.y, v.x, one, limit);
    let c = b.cross(v);
    assert(c.within(2 * limit * ONE));
    lemma_mul_within(c.x, 2 * q.w, 2 * limit * ONE, 2 * one);
    lemma_mul_within(c.y, 2 * q.w, 2 * limit * ONE, 2 * one);
    lemma_mul_within(c.z, 2 * q.w, 2 * limit * ONE, 2 * one);
    assert(limit * (3 * ONE_SQ) == 3 * limit * ONE_SQ) by (nonlinear_arith);
    assert(one * (6 * limit * ONE) == 6 * limit * ONE_SQ) by (nonlinear_arith)
        requires
            one == ONE,
    ;
    assert((2 * limit * ONE) * (2 * one) == 4 * limit * ONE_SQ) by (nonlinear_arith)
        requires
            one == ONE,
    ;
    let sum = v.times(spin).plus(b.times(d)).plus(c.times(2 * q.w));
    assert(sum.within(13 * limit * ONE_SQ));
    assert(13 * limit * ONE_SQ == (13 * limit) * ONE_SQ) by (nonlinear_arith);
    lemma_trunc_div_within(sum.x, ONE_SQ as int, 13 * limit);
    lemma_trunc_div_within(sum.y, ONE_SQ as int, 13 * limit);
    lemma_trunc_div_within(sum.z, ONE_SQ as int, 13 * limit);
}

/// An orientation in fixed point.
#[derive(Clone, Copy, Debug, PartialEq, Eq, Structural)]
pub struct Quat {
    pub x: i64,
    pub y: i64,
    pub z: i64,
    pub w: i64,
}

impl View for Quat {
    type V = Q4;

    open spec fn view(&self) -> Q4 {
        Q4 { x: self.x as int, y: self.y as int, z: self.z as int, w: self.w as int }
    }
}

/// The bound on the components of a quaternion that is yet to be settled.
const RAW_LIMIT: i128 = 1_000_000_000_000_000_000;

/// The orientation that four components stand for.
fn settle(x0: i128, y0: i128, z0: i128, w0: i128) -> (r: Quat)
    requires
        (Q4 { x: x0 as int, y: y0 as int, z: z0 as int, w: w0 as int }).within(RAW_LIMIT as int),
    ensures
        r@ == (Q4 { x: x0 as int, y: y0 as int, z: z0 as int, w: w0 as int }).settled(),
        r@.is_rotation(),
{
    let ghost raw = Q4 { x: x0 as int, y: y0 as int, z: z0 as int, w: w0 as int };
    proof {
        lemma_mul_within(x0 as int, x0 as int, RAW_LIMIT as int, RAW_LIMIT as int);
        lemma_mul_within(y0 as int, y0 as int, RAW_LIMIT as int, RAW_LIMIT as int);
        lemma_mul_within(z0 as int, z0 as int, RAW_LIMIT as int, RAW_LIMIT as int);
        lemma_mul_within(w0 as int, w0 as int, RAW_LIMIT as int, RAW_LIMIT as int);
        assert(x0 * x0 >= 0 && y0 * y0 >= 0 && z0 * z0 >= 0 && w0 * w0 >= 0) by (nonlinear_arith);
        lemma_settled_is_rotation(raw);
    }
    let n: i128 = x0 * x0 + y0 * y0 + z0 * z0 + w0 * w0;
    if ROTATION_NORM_MIN <= n && n <= ROTATION_NORM_MAX {
        proof {
            lemma_rotation_within(raw);
        }
        return Quat { x: x0 as i64, y: y0 as i64, z: z0 as i64, w: w0 as i64 };
    }
    let root: u64 = isqrt_u128(n as u128);
    let len: i128 = root as i128 + 1;
    proof {
        lemma_mul_within(x0 as int, ONE as int, RAW_LIMIT as int, ONE as int);
        lemma_mul_within(y0 as int, ONE as int, RAW_LIMIT as int, ONE as int);
        lemma_mul_within(z0 as int, ONE as int, RAW_LIMIT as int, ONE as int);
        lemma_mul_within(w0 as int, ONE as int, RAW_LIMIT as int, ONE as int);
    }
    let x: i128 = x0 * (ONE as i128) / len;
    let y: i128 = y0 * (ONE as i128) / len;
    let z: i128 = z0 * (ONE as i128) / len;
    let w: i128 = w0 * (ONE as i128) / len;
    proof {
        assert(raw.rescaled() == (Q4 { x: x as int, y: y as int, z: z as int, w: w as int }));
    }
    if x > ONE as i128 || x < -(ONE as i128) || y > ONE as i128 || y < -(ONE as i128) || z
        > ONE as i128 || z < -(ONE as i128) || w > ONE as i128 || w < -(ONE as i128) {
        proof {
            if raw.rescaled().is_rotation() {
                lemma_rotation_within(raw.rescaled());
            }
        }
        return Quat { x: 0, y: 0, z: 0, w: ONE };
    }
    proof {
        lemma_mul_within(x as int, x as int, ONE as int, ONE as int);
        lemma_mul_within(y as int, y as int, ONE as int, ONE as int);
        lemma_mul_within(z as int, z as int, ONE as int, ONE as int);
        lemma_mul_within(w as int, w as int, ONE as int, ONE as int);
    }
    let m: i128 = x * x + y * y + z * z + w * w;
    if ROTATION_NORM_MIN <= m && m <= ROTATION_NORM_MAX {
        Quat { x: x as i64, y: y as i64, z: z as i64, w: w as i64 }
    } else {
        Quat { x: 0, y: 0, z: 0, w: ONE }
    }
}

impl Quat {
    /// The orientation that turns nothing.
    pub fn identity() -> (r: Quat)
        ensures
            r@ == Q4::identity(),
            r@.is_rotation(),
    {
        proof {
            lemma_settled_is_rotation(Q4::identity());
            assert(Q4::identity().norm_sq() == ONE_SQ) by (nonlinear_arith)
                requires
                    Q4::identity().norm_sq() == 0 * 0 + 0 * 0 + 0 * 0 + ONE * ONE,
            ;
        }
        Quat { x: 0, y: 0, z: 0, w: ONE }
    }

    /// The orientation that four components stand for: the components
    /// themselves where they are of unit length, else rescaled, and the
    /// identity where they cannot be.
    pub fn new(x: i64, y: i64, z: i64, w: i64) -> (r: Quat)
        ensures
            r@.is_rotation(),
            (Q4 { x: x as int, y: y as int, z: z as int, w: w as int }).within(COORD_LIMIT as int)
                ==> r@ == (Q4 { x: x as int, y: y as int, z: z as int, w: w as int }).settled(),
            !(Q4 { x: x as int, y: y as int, z: z as int, w: w as int }).within(
                COORD_LIMIT as int,
            ) ==> r@ == Q4::identity(),
    {
        if -COORD_LIMIT <= x && x <= COORD_LIMIT && -COORD_LIMIT <= y && y <= COORD_LIMIT
            && -COORD_LIMIT <= z && z <= COORD_LIMIT && -COORD_LIMIT <= w && w <= COORD_LIMIT {
            settle(x as i128, y as i128, z as i128, w as i128)
        } else {
            Quat::identity()
        }
    }

    /// Whether the quaternion is of unit length, within the tolerance of the scale.
    pub fn is_rotation(&self) -> (r: bool)
        ensures
            r == self@.is_rotation(),
    {
        if self.x > ONE || self.x < -ONE || self.y > ONE || self.y < -ONE || self.z > ONE || self.z
            < -ONE || self.w > ONE || self.w < -ONE {
            proof {
                if self@.is_rotation() {
                    lemma_rotation_within(self@);
                }
            }
            return false;
        }
        proof {
            lemma_mul_within(self.x as int, self.x as int, ONE as int, ONE as int);
            lemma_mul_within(self.y as int, self.y as int, ONE as int, ONE as int);
            lemma_mul_within(self.z as int, self.z as int, ONE as int, ONE as int);
            lemma_mul_within(self.w as int, self.w as int, ONE as int, ONE as int);
        }
        let n: i128 = mul_wide(self.x, self.x) + mul_wide(self.y, self.y) + mul_wide(
            self.z,
            self.z,
        ) + mul_wide(self.w, self.w);
        ROTATION_NORM_MIN <= n && n <= ROTATION_NORM_MAX
    }

    /// The orientation reached by turning by `o` in the frame that `self` has reached.
    pub fn compose(&self, o: &Quat) -> (r: Quat)
        requires
            self@.is_rotation(),
            o@.is_rotation(),
        ensures
            r@ == self@.compose(o@),
            r@.is_rotation(),
    {
        proof {
            lemma_rotation_within(self@);
            lemma_rotation_within(o@);
            let one = ONE as int;
            lemma_mul_within(self.w as int, o.x as int, one, one);
            lemma_mul_within(self.x as int, o.w as int, one, one);
            lemma_mul_within(self.y as int, o.z as int, one, one);
            lemma_mul_within(self.z as int, o.y as int, one, one);
            lemma_mul_within(self.w as int, o.y as int, one, one);
            lemma_mul_within(self.x as int, o.z as int, one, one);
            lemma_mul_within(self.y as int, o.w as int, one, one);
            lemma_mul_within(self.z as int, o.x as int, one, one);
            lemma_mul_within(self.w as int, o.z as int, one, one);
            lemma_mul_within(self.x as int, o.y as int, one, one);
            lemma_mul_within(self.y as int, o.x as int, one, one);
            lemma_mul_within(self.z as int, o.w as int, one, one);
            lemma_mul_within(self.w as int, o.w as int, one, one);
            lemma_mul_within(self.x as int, o.x as int, one, one);
            lemma_mul_within(self.y as int, o.y as int, one, one);
            lemma_mul_within(self.z as int, o.z as int, one, one);
        }
        let x: i128 = mul_wide(self.w, o.x) + mul_wide(self.x, o.w) + mul_wide(self.y, o.z)
            - mul_wide(self.z, o.y);
        let y: i128 = mul_wide(self.w, o.y) - mul_wide(self.x, o.z) + mul_wide(self.y, o.w)
            + mul_wide(self.z, o.x);
        let z: i128 = mul_wide(self.w, o.z) + mul_wide(self.x, o.y) - mul_wide(self.y, o.x)
            + mul_wide(self.z, o.w);
        let w: i128 = mul_wide(self.w, o.w) - mul_wide(self.x, o.x) - mul_wide(self.y, o.y)
            - mul_wide(self.z, o.z);
        proof {
            lemma_trunc_div_within(x as int, ONE as int, 4 * ONE);
            lemma_trunc_div_within(y as int, ONE as int, 4 * ONE);
            lemma_trunc_div_within(z as int, ONE as int, 4 * ONE);
            lemma_trunc_div_within(w as int, ONE as int, 4 * ONE);
        }
        settle(x / (ONE as i128), y / (ONE as i128), z / (ONE as i128), w / (ONE as i128))
    }

    /// The vector `v` turned by the orientation.
    pub fn rotate(&self, v: &Vec3) -> (r: Vec3)
        requires
            self@.is_rotation(),
            v@.within(ROTATE_LIMIT as int),
        ensures
            r@ == self@.rotate(v@),
            r@.within(13 * ROTATE_LIMIT),
    {
        proof {
            lemma_rotation_within(self@);
            lemma_rotate_within(self@, v@, ROTATE_LIMIT as int);
            let one = ONE as int;
            lemma_mul_within(self.x as int, self.x as int, one, one);
            lemma_mul_within(self.y as int, self.y as int, one, one);
            lemma_mul_within(self.z as int, self.z as int, one, one);
            lemma_mul_within(self.w as int, self.w as int, one, one);
        }
        let spin: i128 = mul_wide(self.w, self.w) - (mul_wide(self.x, self.x) + mul_wide(
            self.y,
            self.y,
        ) + mul_wide(self.z, self.z));
        proof {
            let limit = ROTATE_LIMIT as int;
            let one = ONE as int;
            lemma_mul_within(v.x as int, self.x as int, limit, one);
            lemma_mul_within(v.y as int, self.y as int, limit, one);
            lemma_mul_within(v.z as int, self.z as int, limit, one);
            lemma_mul_within(self.y as int, v.z as int, one, limit);
            lemma_mul_within(self.z as int, v.y as int, one, limit);
            lemma_mul_within(self.z as int, v.x as int, one, limit);
            lemma_mul_within(self.x as int, v.z as int, one, limit);
            lemma_mul_within(self.x as int, v.y as int, one, limit);
            lemma_mul_within(self.y as int, v.x as int, one, limit);
        }
        let d: i128 = 2 * (mul_wide(v.x, self.x) + mul_wide(v.y, self.y) + mul_wide(v.z, self.z));
        let cx: i128 = mul_wide(self.y, v.z) - mul_wide(self.z, v.y);
        let cy: i128 = mul_wide(self.z, v.x) - mul_wide(self.x, v.z);
        let cz: i128 = mul_wide(self.x, v.y) - mul_wide(self.y, v.x);
        let w2: i128 = 2 * (self.w as i128);
        proof {
            let limit = ROTATE_LIMIT as int;
            let one = ONE as int;
            lemma_mul_within(v.x as int, spin as int, limit, 3 * ONE_SQ);
            lemma_mul_within(v.y as int, spin as int, limit, 3 * ONE_SQ);
            lemma_mul_within(v.z as int, spin as int, limit, 3 * ONE_SQ);
            lemma_mul_within(self.x as int, d as int, one, 6 * limit * ONE);
            lemma_mul_within(self.y as int, d as int, one, 6 * limit * ONE);
            lemma_mul_within(self.z as int, d as int, one, 6 * limit * ONE);
            lemma_mul_within(cx as int, w2 as int, 2 * limit * ONE, 2 * one);
            lemma_mul_within(cy as int, w2 as int, 2 * limit * ONE, 2 * one);
            lemma_mul_within(cz as int, w2 as int, 2 * limit * ONE, 2 * one);
        }
        let nx: i128 = (v.x as i128) * spin + (self.x as i128) * d + cx * w2;
        let ny: i128 = (v.y as i128) * spin + (self.y as i128) * d + cy * w2;
        let nz: i128 = (v.z as i128) * spin + (self.z as i128) * d + cz * w2;
        Vec3 { x: (nx / ONE_SQ) as i64, y: (ny / ONE_SQ) as i64, z: (nz / ONE_SQ) as i64 }
    }

    /// The blend that lies the fraction `t` of the way from `self` to `end`.
    pub fn lerp(&self, end: &Quat, t: i64) -> (r: Quat)
        requires
            self@.is_rotation(),
            end@.is_rotation(),
            0 <= t <= ONE,
        ensures
            r@ == self@.lerp(end@, t as int),
            r@.is_rotation(),
    {
        proof {
            lemma_rotation_within(self@);
            lemma_rotation_within(end@);
            let one = ONE as int;
            lemma_mul_within(self.x as int, end.x as int, one, one);
            lemma_mul_within(self.y as int, end.y as int, one, one);
            lemma_mul_within(self.z as int, end.z as int, one, one);
            lemma_mul_within(self.w as int, end.w as int, one, one);
        }
        let dot: i128 = mul_wide(self.x, end.x) + mul_wide(self.y, end.y) + mul_wide(
            self.z,
            end.z,
        ) + mul_wide(self.w, end.w);
        let bias: i64 = if dot >= 0 {
            1
        } else {
            -1
        };
        settle(
            blend(self.x, end.x, bias, t),
            blend(self.y, end.y, bias, t),
            blend(self.z, end.z, bias, t),
            blend(self.w, end.w, bias, t),
        )
    }
}

/// One component of a blend of two orientations.
fn blend(from: i64, to: i64, bias: i64, t: i64) -> (r: i128)
    requires
        -ONE <= from <= ONE,
        -ONE <= to <= ONE,
        bias == 1 || bias == -1,
        0 <= t <= ONE,
    ensures
        r == from + trunc_div((to * bias - from) * t, ONE as int),
        -(3 * ONE) <= r <= 3 * ONE,
{
    let step: i64 = to * bias - from;
    proof {
        lemma_mul_within(step as int, t as int, 2 * ONE, ONE as int);
        lemma_trunc_div_within(step * t, ONE as int, 2 * ONE);
    }
    (from as i128) + mul_wide(step, t) / (ONE as i128)
}

/// The half-width of the world: no craft, drone or target lies farther than
/// this from the origin along any axis.
pub const WORLD_LIMIT: i64 = 1_000_000_000_000_000;

/// A place and an orientation, with unbounded coordinates.
pub struct Pose {
    pub translation: V3,
    pub rotation: Q4,
}

/// A place and an orientation.
#[derive(Clone, Copy, Debug, PartialEq, Eq, Structural)]
pub struct Transform {
    pub translation: Vec3,
    pub rotation: Quat,
}

impl View for Transform {
    type V = Pose;

    open spec fn view(&self) -> Pose {
        Pose { translation: self.translation@, rotation: self.rotation@ }
    }
}

impl Transform {
    /// The place lies in the world and the orientation is of unit length.
    pub open spec fn wf(&self) -> bool {
        &&& self.translation@.within(WORLD_LIMIT as int)
        &&& self.rotation@.is_rotation()
    }

    /// Whether the place lies in the world and the orientation is of unit length.
    pub fn is_valid(&self) -> (r: bool)
        ensures
            r == self.wf(),
    {
        self.translation.is_within(WORLD_LIMIT) && self.rotation.is_rotation()
    }

    /// The transform at `translation` that is turned nowhere.
    pub fn from_translation(translation: Vec3) -> (r: Transform)
        ensures
            r.translation == translation,
            r.rotation@ == Q4::identity(),
    {
        Transform { translation, rotation: Quat::identity() }
    }
}

} // verus!
