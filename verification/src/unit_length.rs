//! Directions and orientations keep their unit length.
//!
//! A normalized vector is rounded, and so is the product or the blend of two
//! orientations; rounding leaves the length a little off one. What is proved
//! here is how little. A normalized vector is of unit length to within a few
//! millionths. The product of two orientations and every blend of two
//! orientations is either of unit length as it stands, or is of unit length
//! once rescaled: the identity that stands in for what cannot be rescaled
//! never takes the place of a product or a blend.

use vstd::prelude::*;
use crate::fixed::{
    isqrt, lemma_isqrt_dominates, lemma_isqrt_exists, lemma_mul_within, trunc_div, ONE, ONE_SQ,
};
use crate::rotation::{
    lemma_negative_is_rotation, lemma_rotate_within, lemma_rotation_within, Q4,
    ROTATION_NORM_MAX, ROTATION_NORM_MIN,
};
use crate::vector::{lemma_length_positive, lemma_normalized_within, V3};

verus! {

/// The least squared length from which rescaling is proved to reach unit
/// length: that of a quaternion half as long as an orientation.
pub const RESCALE_NORM_MIN: i128 = 250_000_000_000;

/// A quotient rounded toward zero, and what is left: less than the divisor,
/// and on the side of zero on which the dividend lies.
pub proof fn lemma_trunc_div_parts(a: int, d: int)
    requires
        d > 0,
    ensures
        -d < a - trunc_div(a, d) * d < d,
        a >= 0 ==> trunc_div(a, d) >= 0 && a - trunc_div(a, d) * d >= 0,
        a <= 0 ==> trunc_div(a, d) <= 0 && a - trunc_div(a, d) * d <= 0,
{
    if a >= 0 {
        assert(a == (a / d) * d + a % d && 0 <= a % d < d && a / d >= 0) by (nonlinear_arith)
            requires
                a >= 0,
                d > 0,
        ;
    } else {
        let m = -a;
        assert(m == (m / d) * d + m % d && 0 <= m % d < d && m / d >= 0) by (nonlinear_arith)
            requires
                m >= 0,
                d > 0,
        ;
        assert((-(m / d)) * d == -((m / d) * d)) by (nonlinear_arith);
    }
}

/// The square of a dividend lies between the square of quotient times
/// divisor and that plus a margin, which is small where the quotient is.
pub proof fn lemma_square_of_dividend(a: int, d: int, bound: int)
    requires
        d > 0,
        bound >= 0,
    ensures
        ({
            let q = trunc_div(a, d);
            &&& (q * q) * (d * d) <= a * a
            &&& -bound <= q <= bound ==> a * a <= (q * q) * (d * d) + (2 * bound + 1) * (d * d)
        }),
{
    let q = trunc_div(a, d);
    let r = a - q * d;
    lemma_trunc_div_parts(a, d);
    let u = q * d;
    let dd = d * d;
    assert((q >= 0 ==> u >= 0) && (q <= 0 ==> u <= 0)) by (nonlinear_arith)
        requires
            u == q * d,
            d > 0,
    ;
    assert(u * u <= a * a) by (nonlinear_arith)
        requires
            a == u + r,
            (u >= 0 && r >= 0) || (u <= 0 && r <= 0),
    ;
    assert(u * u == (q * q) * dd) by (nonlinear_arith)
        requires
            u == q * d,
            dd == d * d,
    ;
    if -bound <= q <= bound {
        assert(a * a == u * u + 2 * (u * r) + r * r) by (nonlinear_arith)
            requires
                a == u + r,
        ;
        assert(r * r <= dd) by (nonlinear_arith)
            requires
                -d < r < d,
                dd == d * d,
        ;
        assert(u * r <= bound * dd) by (nonlinear_arith)
            requires
                u == q * d,
                dd == d * d,
                -bound <= q <= bound,
                -d < r < d,
                d > 0,
        ;
        assert((2 * bound + 1) * dd == 2 * (bound * dd) + dd) by (nonlinear_arith);
    }
}

/// The least squared length of a normalized vector that is not zero.
pub const DIRECTION_NORM_MIN: i128 = 999_993_999_997;

/// A normalized vector is of unit length to within a few millionths: its
/// squared length falls short of one by no more than six millionths, and,
/// where the vector was at least one unit long, exceeds one by no more than
/// two millionths.
pub proof fn lemma_normalized_length(v: V3)
    requires
        v.len_sq() != 0,
    ensures
        v.normalized().len_sq() >= DIRECTION_NORM_MIN,
        v.length() >= ONE ==> v.normalized().len_sq() <= ONE_SQ + 2 * ONE,
{
    lemma_length_positive(v);
    lemma_normalized_within(v);
    let n = v.len_sq();
    let len = v.length();
    let q = v.normalized();
    let ll = len * len;
    lemma_square_of_dividend(v.x * ONE, len, ONE as int);
    lemma_square_of_dividend(v.y * ONE, len, ONE as int);
    lemma_square_of_dividend(v.z * ONE, len, ONE as int);
    lemma_scaled_square(v.x);
    lemma_scaled_square(v.y);
    lemma_scaled_square(v.z);
    let s = q.len_sq();
    assert(ll > 0) by (nonlinear_arith)
        requires
            ll == len * len,
            len > 0,
    ;
    assert(s * ll == (q.x * q.x) * ll + (q.y * q.y) * ll + (q.z * q.z) * ll) by (nonlinear_arith)
        requires
            s == q.x * q.x + q.y * q.y + q.z * q.z,
    ;
    assert(n * ONE_SQ == (v.x * v.x) * ONE_SQ + (v.y * v.y) * ONE_SQ + (v.z * v.z) * ONE_SQ)
        by (nonlinear_arith)
        requires
            n == v.x * v.x + v.y * v.y + v.z * v.z,
    ;
    assert(s * ll <= n * ONE_SQ);
    assert(n * ONE_SQ <= s * ll + 3 * ((2 * ONE + 1) * ll));
    assert(ll * ONE_SQ <= n * ONE_SQ) by (nonlinear_arith)
        requires
            ll <= n,
    ;
    if s < DIRECTION_NORM_MIN {
        assert(s * ll + 3 * ((2 * ONE + 1) * ll) < ll * ONE_SQ) by (nonlinear_arith)
            requires
                s <= ONE_SQ - 6 * ONE - 4,
                ll > 0,
        ;
    }
    if len >= ONE && s > ONE_SQ + 2 * ONE {
        assert(n * ONE_SQ <= (ll + 2 * len) * ONE_SQ) by (nonlinear_arith)
            requires
                n < (len + 1) * (len + 1),
                ll == len * len,
        ;
        assert((ll + 2 * len) * ONE_SQ <= (ONE_SQ + 2 * ONE) * ll) by (nonlinear_arith)
            requires
                ll == len * len,
                len >= ONE,
        ;
        assert(s * ll >= (ONE_SQ + 2 * ONE + 1) * ll) by (nonlinear_arith)
            requires
                s >= ONE_SQ + 2 * ONE + 1,
                ll > 0,
        ;
    }
}

/// A direction: a vector without length, or one of unit length to within a
/// few millionths and with no component beyond one.
pub open spec fn is_direction(v: V3) -> bool {
    &&& v.within(ONE as int)
    &&& v.len_sq() == 0 || v.len_sq() >= DIRECTION_NORM_MIN
}

/// What normalizing gives is a direction.
pub proof fn lemma_normalized_is_direction(v: V3)
    ensures
        is_direction(v.normalized()),
{
    lemma_normalized_within(v);
    if v.len_sq() != 0 {
        lemma_normalized_length(v);
    } else {
        assert(V3::zero().len_sq() == 0) by (nonlinear_arith)
            requires
                V3::zero().len_sq() == 0 * 0 + 0 * 0 + 0 * 0,
        ;
    }
}

/// Rescaling brings every quaternion that is at least half as long as an
/// orientation to unit length.
pub proof fn lemma_rescaled_is_rotation(p: Q4)
    requires
        p.norm_sq() >= RESCALE_NORM_MIN,
    ensures
        p.rescaled().is_rotation(),
{
    let n = p.norm_sq();
    lemma_isqrt_exists(n);
    assert(500_000int * 500_000int == 250_000_000_000int) by (nonlinear_arith);
    lemma_isqrt_dominates(n, 500_000);
    let root = isqrt(n);
    let len = root + 1;
    let q = p.rescaled();
    let ll = len * len;
    lemma_square_of_dividend(p.x * ONE, len, ONE as int);
    lemma_square_of_dividend(p.y * ONE, len, ONE as int);
    lemma_square_of_dividend(p.z * ONE, len, ONE as int);
    lemma_square_of_dividend(p.w * ONE, len, ONE as int);
    lemma_scaled_square(p.x);
    lemma_scaled_square(p.y);
    lemma_scaled_square(p.z);
    lemma_scaled_square(p.w);
    let s = q.norm_sq();
    assert(ll > 0) by (nonlinear_arith)
        requires
            ll == len * len,
            len > 0,
    ;
    assert(s * ll == (q.x * q.x) * ll + (q.y * q.y) * ll + (q.z * q.z) * ll + (q.w * q.w) * ll)
        by (nonlinear_arith)
        requires
            s == q.x * q.x + q.y * q.y + q.z * q.z + q.w * q.w,
    ;
    assert(n * ONE_SQ == (p.x * p.x) * ONE_SQ + (p.y * p.y) * ONE_SQ + (p.z * p.z) * ONE_SQ + (p.w
        * p.w) * ONE_SQ) by (nonlinear_arith)
        requires
            n == p.x * p.x + p.y * p.y + p.z * p.z + p.w * p.w,
    ;
    assert(s * ll <= n * ONE_SQ);
    assert(n * ONE_SQ < ll * ONE_SQ) by (nonlinear_arith)
        requires
            n < ll,
    ;
    assert(s < ONE_SQ) by (nonlinear_arith)
        requires
            s * ll < ll * ONE_SQ,
            ll > 0,
    ;
    assert(q.x * q.x >= 0 && q.y * q.y >= 0 && q.z * q.z >= 0 && q.w * q.w >= 0)
        by (nonlinear_arith);
    lemma_root_below_one(q.x);
    lemma_root_below_one(q.y);
    lemma_root_below_one(q.z);
    lemma_root_below_one(q.w);
    assert(n * ONE_SQ <= s * ll + 4 * ((2 * ONE + 1) * ll));
    assert(root * root * ONE_SQ <= n * ONE_SQ) by (nonlinear_arith)
        requires
            root * root <= n,
    ;
    if s < ROTATION_NORM_MIN {
        assert(root * root * ONE_SQ > (ROTATION_NORM_MIN - 1) * ll + 4 * ((2 * ONE + 1) * ll))
            by (nonlinear_arith)
            requires
                ll == (root + 1) * (root + 1),
                root >= 500_000,
        ;
        assert(s * ll <= (ROTATION_NORM_MIN - 1) * ll) by (nonlinear_arith)
            requires
                s <= ROTATION_NORM_MIN - 1,
                ll > 0,
        ;
    }
}

/// The square of a number brought to the scale of a product.
proof fn lemma_scaled_square(c: int)
    ensures
        (c * ONE) * (c * ONE) == (c * c) * ONE_SQ,
{
    assert((c * ONE) * (c * ONE) == (c * c) * ONE_SQ) by (nonlinear_arith);
}

/// A number whose square is less than one lies within one.
proof fn lemma_root_below_one(c: int)
    requires
        c * c < ONE_SQ,
    ensures
        -ONE <= c <= ONE,
{
    if c > ONE || c < -ONE {
        assert(c * c >= ONE_SQ) by (nonlinear_arith)
            requires
                c > ONE || c < -ONE,
        ;
    }
}

proof fn lemma_square_three_plus(u1: int, u2: int, u3: int, u4: int)
    ensures
        (u1 + u2 + u3 - u4) * (u1 + u2 + u3 - u4) == u1 * u1 + u2 * u2 + u3 * u3 + u4 * u4 + 2 * (u1
            * u2) + 2 * (u1 * u3) + 2 * (u2 * u3) - 2 * (u1 * u4) - 2 * (u2 * u4) - 2 * (u3 * u4),
{
    assert((u1 + u2 + u3 - u4) * (u1 + u2 + u3 - u4) == u1 * u1 + u2 * u2 + u3 * u3 + u4 * u4 + 2
        * (u1 * u2) + 2 * (u1 * u3) + 2 * (u2 * u3) - 2 * (u1 * u4) - 2 * (u2 * u4) - 2 * (u3
        * u4)) by (nonlinear_arith);
}

proof fn lemma_square_one_plus(u1: int, u2: int, u3: int, u4: int)
    ensures
        (u1 - u2 - u3 - u4) * (u1 - u2 - u3 - u4) == u1 * u1 + u2 * u2 + u3 * u3 + u4 * u4 - 2 * (u1
            * u2) - 2 * (u1 * u3) - 2 * (u1 * u4) + 2 * (u2 * u3) + 2 * (u2 * u4) + 2 * (u3 * u4),
{
    assert((u1 - u2 - u3 - u4) * (u1 - u2 - u3 - u4) == u1 * u1 + u2 * u2 + u3 * u3 + u4 * u4 - 2
        * (u1 * u2) - 2 * (u1 * u3) - 2 * (u1 * u4) + 2 * (u2 * u3) + 2 * (u2 * u4) + 2 * (u3
        * u4)) by (nonlinear_arith);
}

/// In a product of two products the second factors can change places.
proof fn lemma_swap(a: int, b: int, c: int, d: int)
    ensures
        (a * b) * (c * d) == (a * d) * (c * b),
        (a * b) * (c * d) == (c * b) * (a * d),
{
    assert((a * b) * (c * d) == (a * d) * (c * b) && (a * b) * (c * d) == (c * b) * (a * d))
        by (nonlinear_arith);
}

proof fn lemma_square_of_product(a: int, b: int)
    ensures
        (a * b) * (a * b) == (a * a) * (b * b),
{
    assert((a * b) * (a * b) == (a * a) * (b * b)) by (nonlinear_arith);
}

proof fn lemma_distribute(a: int, b1: int, b2: int, b3: int, b4: int)
    ensures
        a * (b1 + b2 + b3 + b4) == a * b1 + a * b2 + a * b3 + a * b4,
        (b1 + b2 + b3 + b4) * a == b1 * a + b2 * a + b3 * a + b4 * a,
{
    assert(a * (b1 + b2 + b3 + b4) == a * b1 + a * b2 + a * b3 + a * b4) by (nonlinear_arith);
    assert((b1 + b2 + b3 + b4) * a == b1 * a + b2 * a + b3 * a + b4 * a) by (nonlinear_arith);
}

proof fn lemma_expand(a1: int, a2: int, a3: int, a4: int, b1: int, b2: int, b3: int, b4: int)
    ensures
        (a1 + a2 + a3 + a4) * (b1 + b2 + b3 + b4) == a1 * b1 + a1 * b2 + a1 * b3 + a1 * b4 + a2 * b1
            + a2 * b2 + a2 * b3 + a2 * b4 + a3 * b1 + a3 * b2 + a3 * b3 + a3 * b4 + a4 * b1 + a4
            * b2 + a4 * b3 + a4 * b4,
{
    let a = a1 + a2 + a3 + a4;
    lemma_distribute(a, b1, b2, b3, b4);
    lemma_distribute(b1, a1, a2, a3, a4);
    lemma_distribute(b2, a1, a2, a3, a4);
    lemma_distribute(b3, a1, a2, a3, a4);
    lemma_distribute(b4, a1, a2, a3, a4);
}

/// The length of a Hamilton product is the product of the lengths.
pub proof fn lemma_hamilton_norm(a: Q4, b: Q4)
    ensures
        a.hamilton(b).norm_sq() == a.norm_sq() * b.norm_sq(),
{
    let n = a.hamilton(b);
    let wx = a.w * b.x;
    let xw = a.x * b.w;
    let yz = a.y * b.z;
    let zy = a.z * b.y;
    let wy = a.w * b.y;
    let xz = a.x * b.z;
    let yw = a.y * b.w;
    let zx = a.z * b.x;
    let wz = a.w * b.z;
    let xy = a.x * b.y;
    let yx = a.y * b.x;
    let zw = a.z * b.w;
    let ww = a.w * b.w;
    let xx = a.x * b.x;
    let yy = a.y * b.y;
    let zz = a.z * b.z;
    assert(n.x == wx + xw + yz - zy);
    assert(n.y == wy + yw + zx - xz);
    assert(n.z == wz + xy + zw - yx);
    assert(n.w == ww - xx - yy - zz);
    lemma_square_three_plus(wx, xw, yz, zy);
    lemma_square_three_plus(wy, yw, zx, xz);
    lemma_square_three_plus(wz, xy, zw, yx);
    lemma_square_one_plus(ww, xx, yy, zz);
    // The products of two different terms cancel in pairs.
    lemma_swap(a.w, b.x, a.x, b.w);
    lemma_swap(a.w, b.x, a.y, b.z);
    lemma_swap(a.x, b.w, a.y, b.z);
    lemma_swap(a.w, b.x, a.z, b.y);
    lemma_swap(a.x, b.w, a.z, b.y);
    lemma_swap(a.y, b.z, a.z, b.y);
    lemma_swap(a.w, b.y, a.y, b.w);
    lemma_swap(a.w, b.y, a.x, b.z);
    lemma_swap(a.y, b.w, a.z, b.x);
    lemma_swap(a.z, b.x, a.x, b.z);
    lemma_swap(a.w, b.z, a.z, b.w);
    lemma_swap(a.x, b.y, a.y, b.x);
    let cross_x = wx * xw + wx * yz + xw * yz - wx * zy - xw * zy - yz * zy;
    let cross_y = wy * yw + wy * zx + yw * zx - wy * xz - yw * xz - zx * xz;
    let cross_z = wz * xy + wz * zw + xy * zw - wz * yx - xy * yx - zw * yx;
    let cross_w = -(ww * xx) - ww * yy - ww * zz + xx * yy + xx * zz + yy * zz;
    assert(cross_x + cross_y + cross_z + cross_w == 0);
    let squares = wx * wx + xw * xw + yz * yz + zy * zy + wy * wy + yw * yw + zx * zx + xz * xz
        + wz * wz + xy * xy + zw * zw + yx * yx + ww * ww + xx * xx + yy * yy + zz * zz;
    assert(n.norm_sq() == squares);
    lemma_square_of_product(a.w, b.x);
    lemma_square_of_product(a.x, b.w);
    lemma_square_of_product(a.y, b.z);
    lemma_square_of_product(a.z, b.y);
    lemma_square_of_product(a.w, b.y);
    lemma_square_of_product(a.x, b.z);
    lemma_square_of_product(a.y, b.w);
    lemma_square_of_product(a.z, b.x);
    lemma_square_of_product(a.w, b.z);
    lemma_square_of_product(a.x, b.y);
    lemma_square_of_product(a.y, b.x);
    lemma_square_of_product(a.z, b.w);
    lemma_square_of_product(a.w, b.w);
    lemma_square_of_product(a.x, b.x);
    lemma_square_of_product(a.y, b.y);
    lemma_square_of_product(a.z, b.z);
    lemma_expand(
        a.x * a.x,
        a.y * a.y,
        a.z * a.z,
        a.w * a.w,
        b.x * b.x,
        b.y * b.y,
        b.z * b.z,
        b.w * b.w,
    );
}

/// The square of a cross product and the square of the dot product make up
/// the product of the squares of the lengths.
pub proof fn lemma_cross_and_dot(b: V3, v: V3)
    ensures
        b.cross(v).len_sq() + b.dot(v) * b.dot(v) == b.len_sq() * v.len_sq(),
{
    let p = Q4 { x: b.x, y: b.y, z: b.z, w: 0 };
    let q = Q4 { x: v.x, y: v.y, z: v.z, w: 0 };
    lemma_hamilton_norm(p, q);
    let h = p.hamilton(q);
    let c = b.cross(v);
    let d = b.dot(v);
    assert(0 * q.x == 0 && p.x * 0 == 0 && 0 * q.y == 0 && p.y * 0 == 0 && 0 * q.z == 0 && p.z * 0
        == 0 && 0 * 0 == 0) by (nonlinear_arith);
    assert(h.x == c.x && h.y == c.y && h.z == c.z && h.w == -d);
    assert(h.w * h.w == d * d) by (nonlinear_arith)
        requires
            h.w == -d,
    ;
    assert(p.norm_sq() == b.len_sq() && q.norm_sq() == v.len_sq());
}

/// A cross product stands at a right angle to both of its factors.
pub proof fn lemma_cross_is_orthogonal(b: V3, v: V3)
    ensures
        b.cross(v).dot(b) == 0,
        b.cross(v).dot(v) == 0,
{
    let c = b.cross(v);
    lemma_regroup3(b.y, v.z, b.x);
    lemma_regroup3(b.z, v.y, b.x);
    lemma_regroup3(b.z, v.x, b.y);
    lemma_regroup3(b.x, v.z, b.y);
    lemma_regroup3(b.x, v.y, b.z);
    lemma_regroup3(b.y, v.x, b.z);
    lemma_regroup3(b.y, v.z, v.x);
    lemma_regroup3(b.z, v.y, v.x);
    lemma_regroup3(b.z, v.x, v.y);
    lemma_regroup3(b.x, v.z, v.y);
    lemma_regroup3(b.x, v.y, v.z);
    lemma_regroup3(b.y, v.x, v.z);
    lemma_difference_times(b.y * v.z, b.z * v.y, b.x);
    lemma_difference_times(b.z * v.x, b.x * v.z, b.y);
    lemma_difference_times(b.x * v.y, b.y * v.x, b.z);
    lemma_difference_times(b.y * v.z, b.z * v.y, v.x);
    lemma_difference_times(b.z * v.x, b.x * v.z, v.y);
    lemma_difference_times(b.x * v.y, b.y * v.x, v.z);
}

/// A product of three factors in every order of its factors.
proof fn lemma_regroup3(a: int, b: int, c: int)
    ensures
        (a * b) * c == (a * c) * b,
        (a * b) * c == (c * b) * a,
        (a * b) * c == (b * c) * a,
        (a * b) * c == (c * a) * b,
        (a * b) * c == (b * a) * c,
{
    assert((a * b) * c == (a * c) * b && (a * b) * c == (c * b) * a && (a * b) * c == (b * c) * a
        && (a * b) * c == (c * a) * b && (a * b) * c == (b * a) * c) by (nonlinear_arith);
}

proof fn lemma_difference_times(a: int, b: int, c: int)
    ensures
        (a - b) * c == a * c - b * c,
{
    assert((a - b) * c == a * c - b * c) by (nonlinear_arith);
}

proof fn lemma_square_of_sum3(u1: int, u2: int, u3: int)
    ensures
        (u1 + u2 + u3) * (u1 + u2 + u3) == u1 * u1 + u2 * u2 + u3 * u3 + 2 * (u1 * u2) + 2 * (u1
            * u3) + 2 * (u2 * u3),
{
    assert((u1 + u2 + u3) * (u1 + u2 + u3) == u1 * u1 + u2 * u2 + u3 * u3 + 2 * (u1 * u2) + 2 * (u1
        * u3) + 2 * (u2 * u3)) by (nonlinear_arith);
}

proof fn lemma_distribute3(a: int, b1: int, b2: int, b3: int)
    ensures
        a * (b1 + b2 + b3) == a * b1 + a * b2 + a * b3,
{
    assert(a * (b1 + b2 + b3) == a * b1 + a * b2 + a * b3) by (nonlinear_arith);
}

/// The dot product of two scaled vectors.
proof fn lemma_dot_of_multiples(p: V3, k: int, q: V3, m: int)
    ensures
        p.times(k).dot(q.times(m)) == (k * m) * p.dot(q),
{
    lemma_regroup(p.x, k, q.x, m);
    lemma_regroup(p.y, k, q.y, m);
    lemma_regroup(p.z, k, q.z, m);
    lemma_regroup3(p.x * q.x, k * m, 1);
    assert((p.x * q.x) * (k * m) == (k * m) * (p.x * q.x) && (p.y * q.y) * (k * m) == (k * m) * (p.y
        * q.y) && (p.z * q.z) * (k * m) == (k * m) * (p.z * q.z)) by (nonlinear_arith);
    lemma_distribute3(k * m, p.x * q.x, p.y * q.y, p.z * q.z);
}

/// The square of the length of a sum of three vectors.
proof fn lemma_len_sq_of_sum3(p: V3, q: V3, r: V3)
    ensures
        p.plus(q).plus(r).len_sq() == p.len_sq() + q.len_sq() + r.len_sq() + 2 * p.dot(q) + 2
            * p.dot(r) + 2 * q.dot(r),
{
    lemma_square_of_sum3(p.x, q.x, r.x);
    lemma_square_of_sum3(p.y, q.y, r.y);
    lemma_square_of_sum3(p.z, q.z, r.z);
}

/// Turning a vector by a quaternion multiplies its length by the squared
/// length of the quaternion: before rounding, at the scale of three factors.
pub proof fn lemma_rotation_scales_length(q: Q4, v: V3)
    ensures
        ({
            let b = q.axis();
            let spin = q.w * q.w - b.dot(b);
            let turned = v.times(spin).plus(b.times(2 * v.dot(b))).plus(
                b.cross(v).times(2 * q.w),
            );
            turned.len_sq() == (q.norm_sq() * q.norm_sq()) * v.len_sq()
        }),
{
    let b = q.axis();
    let big_b = b.dot(b);
    let big_w = q.w * q.w;
    let big_v = v.len_sq();
    let d = v.dot(b);
    let c = b.cross(v);
    let cc = c.len_sq();
    let spin = big_w - big_b;
    let along = v.times(spin);
    let about = b.times(2 * d);
    let across = c.times(2 * q.w);
    lemma_len_sq_of_sum3(along, about, across);
    lemma_dot_of_multiples(v, spin, v, spin);
    lemma_dot_of_multiples(b, 2 * d, b, 2 * d);
    lemma_dot_of_multiples(c, 2 * q.w, c, 2 * q.w);
    lemma_dot_of_multiples(v, spin, b, 2 * d);
    lemma_dot_of_multiples(v, spin, c, 2 * q.w);
    lemma_dot_of_multiples(b, 2 * d, c, 2 * q.w);
    lemma_cross_is_orthogonal(b, v);
    lemma_cross_and_dot(b, v);
    assert(v.dot(c) == c.dot(v) && b.dot(c) == c.dot(b)) by (nonlinear_arith)
        requires
            v.dot(c) == v.x * c.x + v.y * c.y + v.z * c.z,
            c.dot(v) == c.x * v.x + c.y * v.y + c.z * v.z,
            b.dot(c) == b.x * c.x + b.y * c.y + b.z * c.z,
            c.dot(b) == c.x * b.x + c.y * b.y + c.z * b.z,
    ;
    assert(b.dot(v) == d) by (nonlinear_arith)
        requires
            b.dot(v) == b.x * v.x + b.y * v.y + b.z * v.z,
            d == v.x * b.x + v.y * b.y + v.z * b.z,
    ;
    assert((spin * (2 * q.w)) * 0 == 0 && ((2 * d) * (2 * q.w)) * 0 == 0) by (nonlinear_arith);
    let total = along.plus(about).plus(across).len_sq();
    assert(total == (spin * spin) * big_v + ((2 * d) * (2 * d)) * big_b + ((2 * q.w) * (2 * q.w))
        * cc + 2 * ((spin * (2 * d)) * d));
    assert(cc == big_b * big_v - d * d);
    assert(q.norm_sq() == big_w + big_b);
    let dd = d * d;
    let bv = big_b * big_v;
    assert(((2 * d) * (2 * d)) * big_b == 4 * (dd * big_b)) by (nonlinear_arith)
        requires
            dd == d * d,
    ;
    assert(((2 * q.w) * (2 * q.w)) * cc == 4 * (big_w * bv) - 4 * (big_w * dd)) by (nonlinear_arith)
        requires
            big_w == q.w * q.w,
            cc == bv - dd,
    ;
    assert(2 * ((spin * (2 * d)) * d) == 4 * (big_w * dd) - 4 * (dd * big_b)) by (nonlinear_arith)
        requires
            spin == big_w - big_b,
            dd == d * d,
    ;
    assert((spin * spin) * big_v + 4 * (big_w * bv) == ((big_w + big_b) * (big_w + big_b)) * big_v)
        by (nonlinear_arith)
        requires
            spin == big_w - big_b,
            bv == big_b * big_v,
    ;
}

/// Turning a vector by an orientation does not lengthen it by more than the
/// tolerance of the orientation allows: a vector turned is as long as it
/// was, to within a few millionths of its length and a few millionths.
pub proof fn lemma_rotated_length(q: Q4, v: V3, bound: int)
    requires
        q.is_rotation(),
        bound >= 0,
        q.rotate(v).within(bound),
    ensures
        q.rotate(v).len_sq() * (ONE_SQ * ONE_SQ) <= (ROTATION_NORM_MAX * ROTATION_NORM_MAX)
            * v.len_sq(),
        (ROTATION_NORM_MIN * ROTATION_NORM_MIN) * v.len_sq() <= (q.rotate(v).len_sq() + 3 * (2
            * bound + 1)) * (ONE_SQ * ONE_SQ),
{
    let b = q.axis();
    let spin = q.w * q.w - b.dot(b);
    let turned = v.times(spin).plus(b.times(2 * v.dot(b))).plus(b.cross(v).times(2 * q.w));
    let r = q.rotate(v);
    let scale = ONE_SQ as int;
    let ss = scale * scale;
    lemma_rotation_scales_length(q, v);
    lemma_square_of_dividend(turned.x, scale, bound);
    lemma_square_of_dividend(turned.y, scale, bound);
    lemma_square_of_dividend(turned.z, scale, bound);
    let s = r.len_sq();
    assert(s * ss == (r.x * r.x) * ss + (r.y * r.y) * ss + (r.z * r.z) * ss) by (nonlinear_arith)
        requires
            s == r.x * r.x + r.y * r.y + r.z * r.z,
    ;
    let n = q.norm_sq();
    let big_v = v.len_sq();
    assert(big_v >= 0) by (nonlinear_arith)
        requires
            big_v == v.x * v.x + v.y * v.y + v.z * v.z,
    ;
    assert((n * n) * big_v <= (ROTATION_NORM_MAX * ROTATION_NORM_MAX) * big_v && (
    ROTATION_NORM_MIN * ROTATION_NORM_MIN) * big_v <= (n * n) * big_v) by (nonlinear_arith)
        requires
            ROTATION_NORM_MIN <= n <= ROTATION_NORM_MAX,
            ROTATION_NORM_MIN >= 0,
            big_v >= 0,
    ;
    assert((s + 3 * (2 * bound + 1)) * ss == s * ss + 3 * ((2 * bound + 1) * ss))
        by (nonlinear_arith);
}

/// The least squared length of a body axis as an orientation turns it.
pub const TURNED_AXIS_MIN: i128 = 999_962_000_000;

/// The greatest squared length of a body axis as an orientation turns it.
pub const TURNED_AXIS_MAX: i128 = 1_000_004_000_004;

/// A body axis turned by an orientation is still of unit length, to within
/// twenty millionths: so are the nose of a craft and its upward direction.
pub proof fn lemma_turned_axis_is_unit(q: Q4, axis: V3)
    requires
        q.is_rotation(),
        axis.within(ONE as int),
        axis.len_sq() == ONE_SQ,
    ensures
        q.rotate(axis).within(ONE + 2),
        TURNED_AXIS_MIN <= q.rotate(axis).len_sq() <= TURNED_AXIS_MAX,
{
    let r = q.rotate(axis);
    let s = r.len_sq();
    let ss = ONE_SQ * ONE_SQ;
    lemma_rotation_within(q);
    lemma_rotate_within(q, axis, ONE as int);
    lemma_rotated_length(q, axis, 13 * ONE);
    assert(ss == 1_000_000_000_000_000_000_000_000int) by (nonlinear_arith)
        requires
            ss == ONE_SQ * ONE_SQ,
    ;
    assert((ROTATION_NORM_MAX * ROTATION_NORM_MAX) * ONE_SQ == TURNED_AXIS_MAX * ss)
        by (nonlinear_arith)
        requires
            ss == ONE_SQ * ONE_SQ,
    ;
    assert(s <= TURNED_AXIS_MAX) by (nonlinear_arith)
        requires
            s * ss <= TURNED_AXIS_MAX * ss,
            ss > 0,
    ;
    assert(r.x * r.x >= 0 && r.y * r.y >= 0 && r.z * r.z >= 0) by (nonlinear_arith);
    lemma_root_below_axis(r.x);
    lemma_root_below_axis(r.y);
    lemma_root_below_axis(r.z);
    lemma_rotated_length(q, axis, ONE + 2);
    assert((ROTATION_NORM_MIN * ROTATION_NORM_MIN) * ONE_SQ > (TURNED_AXIS_MIN - 1 + 3 * (2 * (ONE
        + 2) + 1)) * ss) by (nonlinear_arith)
        requires
            ss == ONE_SQ * ONE_SQ,
    ;
    if s < TURNED_AXIS_MIN {
        assert((s + 3 * (2 * (ONE + 2) + 1)) * ss <= (TURNED_AXIS_MIN - 1 + 3 * (2 * (ONE + 2)
            + 1)) * ss) by (nonlinear_arith)
            requires
                s <= TURNED_AXIS_MIN - 1,
                ss > 0,
        ;
    }
}

/// A number whose square is at most the greatest squared length of a turned
/// axis lies within one and two millionths.
proof fn lemma_root_below_axis(c: int)
    requires
        c * c <= TURNED_AXIS_MAX,
    ensures
        -(ONE + 2) <= c <= ONE + 2,
{
    if c > ONE + 2 || c < -(ONE + 2) {
        assert(c * c >= (ONE + 3) * (ONE + 3)) by (nonlinear_arith)
            requires
                c >= ONE + 3 || c <= -(ONE + 3),
        ;
    }
}

/// A quaternion brought back from the scale of a product is not much shorter
/// than it was: four components, each rounded by less than one.
proof fn lemma_over_one_norm(n: Q4, bound: int)
    requires
        bound >= 0,
        n.over(ONE as int).within(bound),
    ensures
        n.norm_sq() <= n.over(ONE as int).norm_sq() * ONE_SQ + 4 * ((2 * bound + 1) * ONE_SQ),
{
    let p = n.over(ONE as int);
    lemma_square_of_dividend(n.x, ONE as int, bound);
    lemma_square_of_dividend(n.y, ONE as int, bound);
    lemma_square_of_dividend(n.z, ONE as int, bound);
    lemma_square_of_dividend(n.w, ONE as int, bound);
    assert(ONE * ONE == ONE_SQ) by (nonlinear_arith);
    let s = p.norm_sq();
    assert(s * ONE_SQ == (p.x * p.x) * ONE_SQ + (p.y * p.y) * ONE_SQ + (p.z * p.z) * ONE_SQ + (p.w
        * p.w) * ONE_SQ) by (nonlinear_arith)
        requires
            s == p.x * p.x + p.y * p.y + p.z * p.z + p.w * p.w,
    ;
}

/// The product of two orientations, rounded, is still at least half as long
/// as an orientation.
pub proof fn lemma_product_norm(a: Q4, b: Q4)
    requires
        a.is_rotation(),
        b.is_rotation(),
    ensures
        a.product(b).norm_sq() >= RESCALE_NORM_MIN,
{
    let one = ONE as int;
    let n = a.hamilton(b);
    let p = a.product(b);
    lemma_hamilton_norm(a, b);
    lemma_rotation_within(a);
    lemma_rotation_within(b);
    lemma_mul_within(a.w, b.x, one, one);
    lemma_mul_within(a.x, b.w, one, one);
    lemma_mul_within(a.y, b.z, one, one);
    lemma_mul_within(a.z, b.y, one, one);
    lemma_mul_within(a.w, b.y, one, one);
    lemma_mul_within(a.x, b.z, one, one);
    lemma_mul_within(a.y, b.w, one, one);
    lemma_mul_within(a.z, b.x, one, one);
    lemma_mul_within(a.w, b.z, one, one);
    lemma_mul_within(a.x, b.y, one, one);
    lemma_mul_within(a.y, b.x, one, one);
    lemma_mul_within(a.z, b.w, one, one);
    lemma_mul_within(a.w, b.w, one, one);
    lemma_mul_within(a.x, b.x, one, one);
    lemma_mul_within(a.y, b.y, one, one);
    lemma_mul_within(a.z, b.z, one, one);
    assert(one * one == ONE_SQ) by (nonlinear_arith)
        requires
            one == ONE,
    ;
    assert((4 * ONE) * ONE == 4 * ONE_SQ) by (nonlinear_arith);
    crate::fixed::lemma_trunc_div_within(n.x, one, 4 * ONE);
    crate::fixed::lemma_trunc_div_within(n.y, one, 4 * ONE);
    crate::fixed::lemma_trunc_div_within(n.z, one, 4 * ONE);
    crate::fixed::lemma_trunc_div_within(n.w, one, 4 * ONE);
    lemma_over_one_norm(n, 4 * ONE);
    let na = a.norm_sq();
    let nb = b.norm_sq();
    assert(na * nb >= ROTATION_NORM_MIN * ROTATION_NORM_MIN) by (nonlinear_arith)
        requires
            na >= ROTATION_NORM_MIN,
            nb >= ROTATION_NORM_MIN,
            ROTATION_NORM_MIN >= 0,
    ;
    assert(ROTATION_NORM_MIN * ROTATION_NORM_MIN > RESCALE_NORM_MIN * ONE_SQ + 4 * ((2 * (4 * ONE)
        + 1) * ONE_SQ)) by (nonlinear_arith);
    let s = p.norm_sq();
    if s < RESCALE_NORM_MIN {
        assert(s * ONE_SQ <= RESCALE_NORM_MIN * ONE_SQ) by (nonlinear_arith)
            requires
                s <= RESCALE_NORM_MIN,
        ;
    }
}

/// The product of two orientations never gives way to the identity: turning
/// by one orientation after another gives their product, rescaled where
/// rounding has left it short.
pub proof fn lemma_compose_is_product(a: Q4, b: Q4)
    requires
        a.is_rotation(),
        b.is_rotation(),
    ensures
        a.compose(b) == if a.product(b).is_rotation() {
            a.product(b)
        } else {
            a.product(b).rescaled()
        },
{
    lemma_product_norm(a, b);
    lemma_rescaled_is_rotation(a.product(b));
}

/// In a product of two products the inner factors can change places.
proof fn lemma_regroup(a: int, b: int, c: int, d: int)
    ensures
        (a * b) * (c * d) == (a * c) * (b * d),
{
    assert((a * b) * (c * d) == (a * c) * (b * d)) by (nonlinear_arith);
}

/// The square of a point between two numbers, at the scale of a product.
proof fn lemma_square_of_mix(s: int, t: int, f: int, e: int)
    ensures
        (s * f + t * e) * (s * f + t * e) == (s * s) * (f * f) + 2 * ((s * t) * (f * e)) + (t * t)
            * (e * e),
{
    let u = s * f;
    let v = t * e;
    assert((u + v) * (u + v) == u * u + 2 * (u * v) + v * v) by (nonlinear_arith);
    lemma_square_of_product(s, f);
    lemma_square_of_product(t, e);
    lemma_regroup(s, f, t, e);
}

/// A point on the straight line between two orientations that are no more
/// than a right angle apart is at least half as long as an orientation.
pub proof fn lemma_mix_norm(from: Q4, end: Q4, t: int)
    requires
        from.is_rotation(),
        end.is_rotation(),
        0 <= t <= ONE,
    ensures
        from.mix(end, t).norm_sq() >= RESCALE_NORM_MIN,
{
    let one = ONE as int;
    let to = from.nearer(end);
    let raw = from.mix(end, t);
    let s = one - t;
    lemma_negative_is_rotation(end);
    lemma_rotation_within(from);
    lemma_rotation_within(end);
    assert(from.dot(to) >= 0) by {
        if from.dot(end) < 0 {
            assert(from.x * (end.x * -1) + from.y * (end.y * -1) + from.z * (end.z * -1) + from.w
                * (end.w * -1) == -(from.x * end.x + from.y * end.y + from.z * end.z + from.w
                * end.w)) by (nonlinear_arith);
        }
    }
    // Each component at the scale of a product, before it is rounded.
    let x = s * from.x + t * to.x;
    let y = s * from.y + t * to.y;
    let z = s * from.z + t * to.z;
    let w = s * from.w + t * to.w;
    lemma_square_of_mix(s, t, from.x, to.x);
    lemma_square_of_mix(s, t, from.y, to.y);
    lemma_square_of_mix(s, t, from.z, to.z);
    lemma_square_of_mix(s, t, from.w, to.w);
    let ss = s * s;
    let st = s * t;
    let tt = t * t;
    let nf = from.norm_sq();
    let nt = to.norm_sq();
    let d = from.dot(to);
    lemma_distribute(ss, from.x * from.x, from.y * from.y, from.z * from.z, from.w * from.w);
    lemma_distribute(tt, to.x * to.x, to.y * to.y, to.z * to.z, to.w * to.w);
    lemma_distribute(st, from.x * to.x, from.y * to.y, from.z * to.z, from.w * to.w);
    let exact = x * x + y * y + z * z + w * w;
    assert(exact == ss * nf + 2 * (st * d) + tt * nt);
    assert(ss * nf >= ss * ROTATION_NORM_MIN && tt * nt >= tt * ROTATION_NORM_MIN && st * d >= 0)
        by (nonlinear_arith)
        requires
            ss == s * s,
            tt == t * t,
            st == s * t,
            s >= 0,
            t >= 0,
            nf >= ROTATION_NORM_MIN,
            nt >= ROTATION_NORM_MIN,
            d >= 0,
    ;
    assert(2 * (ss + tt) >= ONE_SQ) by (nonlinear_arith)
        requires
            ss == s * s,
            tt == t * t,
            s + t == ONE,
    ;
    assert(2 * ((ss + tt) * ROTATION_NORM_MIN) >= ONE_SQ * ROTATION_NORM_MIN) by (nonlinear_arith)
        requires
            2 * (ss + tt) >= ONE_SQ,
    ;
    assert((ss + tt) * ROTATION_NORM_MIN == ss * ROTATION_NORM_MIN + tt * ROTATION_NORM_MIN)
        by (nonlinear_arith);
    assert(2 * exact >= ONE_SQ * ROTATION_NORM_MIN);
    // What the rounding takes from each component.
    lemma_mix_component(from.x, to.x, t);
    lemma_mix_component(from.y, to.y, t);
    lemma_mix_component(from.z, to.z, t);
    lemma_mix_component(from.w, to.w, t);
    let n = raw.norm_sq();
    assert(n * ONE_SQ == (raw.x * raw.x) * ONE_SQ + (raw.y * raw.y) * ONE_SQ + (raw.z * raw.z)
        * ONE_SQ + (raw.w * raw.w) * ONE_SQ) by (nonlinear_arith)
        requires
            n == raw.x * raw.x + raw.y * raw.y + raw.z * raw.z + raw.w * raw.w,
    ;
    assert(n * ONE_SQ >= exact - 4 * (2 * (ONE_SQ * ONE)));
    if n < RESCALE_NORM_MIN {
        assert(n * ONE_SQ <= RESCALE_NORM_MIN * ONE_SQ) by (nonlinear_arith)
            requires
                n <= RESCALE_NORM_MIN,
        ;
        assert(ONE_SQ * ROTATION_NORM_MIN > 2 * (RESCALE_NORM_MIN * ONE_SQ) + 2 * (4 * (2 * (ONE_SQ
            * ONE)))) by (nonlinear_arith);
    }
}

/// One component of a point between two orientations: rounding takes little
/// from its square.
proof fn lemma_mix_component(f: int, e: int, t: int)
    requires
        -ONE <= f <= ONE,
        -ONE <= e <= ONE,
        0 <= t <= ONE,
    ensures
        ({
            let r = f + trunc_div((e - f) * t, ONE as int);
            let exact = (ONE - t) * f + t * e;
            (r * r) * ONE_SQ >= exact * exact - 2 * (ONE_SQ * ONE)
        }),
{
    let one = ONE as int;
    let m = trunc_div((e - f) * t, one);
    let rest = (e - f) * t - m * one;
    lemma_trunc_div_parts((e - f) * t, one);
    let r = f + m;
    let exact = (one - t) * f + t * e;
    assert(exact == one * f + (e - f) * t) by (nonlinear_arith)
        requires
            exact == (one - t) * f + t * e,
    ;
    let scaled = r * one;
    assert(scaled == exact - rest) by (nonlinear_arith)
        requires
            scaled == (f + m) * one,
            exact == one * f + (e - f) * t,
            rest == (e - f) * t - m * one,
    ;
    assert(-ONE_SQ <= exact <= ONE_SQ) by (nonlinear_arith)
        requires
            exact == (one - t) * f + t * e,
            one == ONE,
            -ONE <= f <= ONE,
            -ONE <= e <= ONE,
            0 <= t <= ONE,
    ;
    assert(scaled * scaled >= exact * exact - 2 * (ONE_SQ * ONE)) by (nonlinear_arith)
        requires
            scaled == exact - rest,
            -ONE_SQ <= exact <= ONE_SQ,
            -ONE < rest < ONE,
    ;
    assert(scaled * scaled == (r * r) * ONE_SQ) by (nonlinear_arith)
        requires
            scaled == r * one,
            one == ONE,
    ;
}

/// A blend of two orientations never gives way to the identity: it is the
/// point on the straight line between them, rescaled where it is short.
pub proof fn lemma_lerp_is_mix(from: Q4, end: Q4, t: int)
    requires
        from.is_rotation(),
        end.is_rotation(),
        0 <= t <= ONE,
    ensures
        from.lerp(end, t) == if from.mix(end, t).is_rotation() {
            from.mix(end, t)
        } else {
            from.mix(end, t).rescaled()
        },
{
    lemma_mix_norm(from, end, t);
    lemma_rescaled_is_rotation(from.mix(end, t));
}

} // verus!
