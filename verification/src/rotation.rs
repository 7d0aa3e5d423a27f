//! Why the exponential of a unit screw axis is a rigid motion: the algebra
//! of the matrices `a·I + b·[w] + c·[w]²` for a unit vector `w`.
use vstd::prelude::*;
use crate::linalg::{
    V3, M3, V6, v3, v3_zero, v3_add, dot, cross, m3, m3_identity, m3_mul, m3_apply, m3_transpose,
    m3_det, col0, col1, col2, row_times, proper_rotation,
};
use crate::rigid::{AngleVal, pose_identity, pose_mul};
use crate::math_utils::{exp_rotation, exp_translation_matrix, exp_map};

verus! {

/// The matrix `a·I + b·[w] + c·[w]²`, entry by entry.
pub open spec fn axis_poly(a: int, b: int, c: int, w: V3) -> M3 {
    let x = w.x;
    let y = w.y;
    let z = w.z;
    m3(
        v3(a - c * (y * y + z * z), c * (x * y) - b * z, c * (z * x) + b * y),
        v3(c * (x * y) + b * z, a - c * (z * z + x * x), c * (y * z) - b * x),
        v3(c * (z * x) - b * y, c * (y * z) + b * x, a - c * (x * x + y * y)),
    )
}

/// The first row of the product of two such matrices.
proof fn lemma_product_row(a: int, b: int, c: int, a2: int, b2: int, c2: int, x: int, y: int, z: int)
    by (nonlinear_arith)
    requires
        x * x + y * y + z * z == 1,
    ensures
        (a - c * (y * y + z * z)) * (a2 - c2 * (y * y + z * z)) + (c * (x * y) - b * z) * (c2 * (x * y) + b2 * z) + (c * (z * x) + b * y) * (c2 * (z * x) - b2 * y) == (a * a2) - (a * c2 + b * b2 + c * a2 - c * c2) * (y * y + z * z),
        (a - c * (y * y + z * z)) * (c2 * (x * y) - b2 * z) + (c * (x * y) - b * z) * (a2 - c2 * (z * z + x * x)) + (c * (z * x) + b * y) * (c2 * (y * z) + b2 * x) == (a * c2 + b * b2 + c * a2 - c * c2) * (x * y) - (a * b2 + b * a2 - b * c2 - c * b2) * z,
        (a - c * (y * y + z * z)) * (c2 * (z * x) + b2 * y) + (c * (x * y) - b * z) * (c2 * (y * z) - b2 * x) + (c * (z * x) + b * y) * (a2 - c2 * (x * x + y * y)) == (a * c2 + b * b2 + c * a2 - c * c2) * (z * x) + (a * b2 + b * a2 - b * c2 - c * b2) * y,
{
}

/// With `a = 1` and `b² + c² = 2c`, the second row crossed with the third
/// is the first.
proof fn lemma_rows_cross(b: int, c: int, x: int, y: int, z: int)
    by (nonlinear_arith)
    requires
        x * x + y * y + z * z == 1,
        b * b + c * c == 2 * c,
    ensures
        (1 - c * (z * z + x * x)) * (1 - c * (x * x + y * y)) - (c * (y * z) - b * x) * (c * (y * z) + b * x) == 1 - c * (y * y + z * z),
        (c * (y * z) - b * x) * (c * (z * x) - b * y) - (c * (x * y) + b * z) * (1 - c * (x * x + y * y)) == c * (x * y) - b * z,
        (c * (x * y) + b * z) * (c * (y * z) + b * x) - (1 - c * (z * z + x * x)) * (c * (z * x) - b * y) == c * (z * x) + b * y,
{
}

/// For a unit `w`, the product of two such matrices is such a matrix again,
/// since `[w]³ = −[w]`.
pub proof fn lemma_axis_poly_mul(a: int, b: int, c: int, a2: int, b2: int, c2: int, w: V3)
    requires
        dot(w, w) == 1,
    ensures
        m3_mul(axis_poly(a, b, c, w), axis_poly(a2, b2, c2, w)) == axis_poly(
            a * a2,
            a * b2 + b * a2 - b * c2 - c * b2,
            a * c2 + b * b2 + c * a2 - c * c2,
            w,
        ),
{
    lemma_product_row(a, b, c, a2, b2, c2, w.x, w.y, w.z);
    lemma_product_row(a, b, c, a2, b2, c2, w.y, w.z, w.x);
    lemma_product_row(a, b, c, a2, b2, c2, w.z, w.x, w.y);
}

/// Transposing flips the sign of the `[w]` term.
pub proof fn lemma_axis_poly_transpose(a: int, b: int, c: int, w: V3)
    ensures
        m3_transpose(axis_poly(a, b, c, w)) == axis_poly(a, -b, c, w),
{
    assert((-b) * w.x == -(b * w.x)) by (nonlinear_arith);
    assert((-b) * w.y == -(b * w.y)) by (nonlinear_arith);
    assert((-b) * w.z == -(b * w.z)) by (nonlinear_arith);
}

/// Rodrigues' rotation is `I + sin·[w] + (1 − cos)·[w]²`.
pub proof fn lemma_rotation_is_poly(w: V3, a: AngleVal)
    ensures
        exp_rotation(w, a) == axis_poly(1, a.sin, 1 - a.cos, w),
{
    let l = exp_rotation(w, a);
    let r = axis_poly(1, a.sin, 1 - a.cos, w);
    let s = a.sin;
    let v = 1 - a.cos;
    let x = w.x;
    let y = w.y;
    let z = w.z;
    assert(l.r0 == r.r0) by (nonlinear_arith)
        requires
            l.r0 == v3((1 + s * 0) + v * (0 * 0 + (-z) * z + y * (-y)), (0 + s * (-z)) + v * (0 * (-z) + (-z) * 0 + y * x), (0 + s * y) + v * (0 * y + (-z) * (-x) + y * 0)),
            r.r0 == v3(1 - v * (y * y + z * z), v * (x * y) - s * z, v * (z * x) + s * y),
    ;
    assert(l.r1 == r.r1) by (nonlinear_arith)
        requires
            l.r1 == v3((0 + s * z) + v * (z * 0 + 0 * z + (-x) * (-y)), (1 + s * 0) + v * (z * (-z) + 0 * 0 + (-x) * x), (0 + s * (-x)) + v * (z * y + 0 * (-x) + (-x) * 0)),
            r.r1 == v3(v * (x * y) + s * z, 1 - v * (z * z + x * x), v * (y * z) - s * x),
    ;
    assert(l.r2 == r.r2) by (nonlinear_arith)
        requires
            l.r2 == v3((0 + s * (-y)) + v * ((-y) * 0 + x * z + 0 * (-y)), (0 + s * x) + v * ((-y) * (-z) + x * 0 + 0 * x), (1 + s * 0) + v * ((-y) * y + x * (-x) + 0 * 0)),
            r.r2 == v3(v * (z * x) - s * y, v * (y * z) + s * x, 1 - v * (x * x + y * y)),
    ;
}

/// The exponential of a unit axis has an orthonormal rotation block of
/// determinant one, whenever sine and cosine lie on the unit circle.
pub proof fn lemma_rotation_proper(w: V3, a: AngleVal)
    requires
        dot(w, w) == 1,
        a.unit(),
    ensures
        proper_rotation(exp_rotation(w, a)),
{
    let s = a.sin;
    let v = 1 - a.cos;
    let r = exp_rotation(w, a);
    lemma_rotation_is_poly(w, a);
    lemma_axis_poly_transpose(1, s, v, w);
    lemma_axis_poly_mul(1, s, v, 1, -s, v, w);
    assert(1 * (-s) + s * 1 - s * v - v * (-s) == 0) by (nonlinear_arith);
    assert(1 * v + s * (-s) + v * 1 - v * v == 0) by (nonlinear_arith)
        requires
            s * s + a.cos * a.cos == 1,
            v == 1 - a.cos,
    ;
    assert(axis_poly(1, 0, 0, w) == m3_identity());
    assert(s * s + v * v == 2 * v) by (nonlinear_arith)
        requires
            s * s + a.cos * a.cos == 1,
            v == 1 - a.cos,
    ;
    lemma_rows_cross(s, v, w.x, w.y, w.z);
    assert(cross(r.r1, r.r2) == r.r0);
    let rr = m3_mul(r, m3_transpose(r));
    assert(rr.r0.x == dot(r.r0, r.r0));
}

/// The matrix of the translation is `θ·I + (1 − cos)·[w] + (θ − sin)·[w]²`.
pub proof fn lemma_translation_is_poly(w: V3, a: AngleVal)
    ensures
        exp_translation_matrix(w, a) == axis_poly(a.theta, 1 - a.cos, a.theta - a.sin, w),
{
    let l = exp_translation_matrix(w, a);
    let r = axis_poly(a.theta, 1 - a.cos, a.theta - a.sin, w);
    let t = a.theta;
    let v = 1 - a.cos;
    let g = a.theta - a.sin;
    let x = w.x;
    let y = w.y;
    let z = w.z;
    assert(l.r0 == r.r0) by (nonlinear_arith)
        requires
            l.r0 == v3((t * 1 + v * 0) + g * (0 * 0 + (-z) * z + y * (-y)), (t * 0 + v * (-z)) + g * (0 * (-z) + (-z) * 0 + y * x), (t * 0 + v * y) + g * (0 * y + (-z) * (-x) + y * 0)),
            r.r0 == v3(t - g * (y * y + z * z), g * (x * y) - v * z, g * (z * x) + v * y),
    ;
    assert(l.r1 == r.r1) by (nonlinear_arith)
        requires
            l.r1 == v3((t * 0 + v * z) + g * (z * 0 + 0 * z + (-x) * (-y)), (t * 1 + v * 0) + g * (z * (-z) + 0 * 0 + (-x) * x), (t * 0 + v * (-x)) + g * (z * y + 0 * (-x) + (-x) * 0)),
            r.r1 == v3(g * (x * y) + v * z, t - g * (z * z + x * x), g * (y * z) - v * x),
    ;
    assert(l.r2 == r.r2) by (nonlinear_arith)
        requires
            l.r2 == v3((t * 0 + v * (-y)) + g * ((-y) * 0 + x * z + 0 * (-y)), (t * 0 + v * x) + g * ((-y) * (-z) + x * 0 + 0 * x), (t * 1 + v * 0) + g * ((-y) * y + x * (-x) + 0 * 0)),
            r.r2 == v3(g * (z * x) - v * y, g * (y * z) + v * x, t - g * (x * x + y * y)),
    ;
}

/// Applying a product is applying its factors in turn.
pub proof fn lemma_apply_product(a: M3, b: M3, u: V3)
    ensures
        m3_apply(a, m3_apply(b, u)) == m3_apply(m3_mul(a, b), u),
{
    lemma_apply_product_row(a.r0, b, u);
    lemma_apply_product_row(a.r1, b, u);
    lemma_apply_product_row(a.r2, b, u);
}

proof fn lemma_spread(k: int, p: int, q: int, r: int, u: int, v: int, w: int)
    ensures
        k * (p * u + q * v + r * w) == (k * p) * u + (k * q) * v + (k * r) * w,
{
    let a = p * u;
    let b = q * v;
    let c = r * w;
    assert(k * (a + b + c) == k * a + k * b + k * c) by (nonlinear_arith);
    assert(k * (p * u) == (k * p) * u) by (nonlinear_arith);
    assert(k * (q * v) == (k * q) * v) by (nonlinear_arith);
    assert(k * (r * w) == (k * r) * w) by (nonlinear_arith);
}

proof fn lemma_gather(p: int, q: int, r: int, u: int)
    by (nonlinear_arith)
    ensures
        (p + q + r) * u == p * u + q * u + r * u,
{
}

proof fn lemma_apply_product_row(r: V3, b: M3, u: V3)
    ensures
        dot(r, m3_apply(b, u)) == dot(row_times(r, b), u),
{
    lemma_spread(r.x, b.r0.x, b.r0.y, b.r0.z, u.x, u.y, u.z);
    lemma_spread(r.y, b.r1.x, b.r1.y, b.r1.z, u.x, u.y, u.z);
    lemma_spread(r.z, b.r2.x, b.r2.y, b.r2.z, u.x, u.y, u.z);
    lemma_gather(r.x * b.r0.x, r.y * b.r1.x, r.z * b.r2.x, u.x);
    lemma_gather(r.x * b.r0.y, r.y * b.r1.y, r.z * b.r2.y, u.y);
    lemma_gather(r.x * b.r0.z, r.y * b.r1.z, r.z * b.r2.z, u.z);
}

proof fn lemma_opposite_rows(e0: int, e1: int, e2: int, f0: int, f1: int, f2: int, u: V3)
    by (nonlinear_arith)
    requires
        e0 + f0 == 0,
        e1 + f1 == 0,
        e2 + f2 == 0,
    ensures
        (e0 * u.x + e1 * u.y + e2 * u.z) + (f0 * u.x + f1 * u.y + f2 * u.z) == 0,
{
}

/// The exponential by an angle, followed by the exponential of the same
/// unit axis by the opposite angle, is the identity.
pub proof fn lemma_exp_round_trip(s: V6, a: AngleVal)
    requires
        dot(s.head, s.head) == 1,
        a.unit(),
    ensures
        pose_mul(exp_map(s, a), exp_map(s, a.reversed())) == pose_identity(),
        pose_mul(exp_map(s, a.reversed()), exp_map(s, a)) == pose_identity(),
{
    lemma_round_trip_one_way(s, a);
    let b = a.reversed();
    assert(b.unit()) by (nonlinear_arith)
        requires
            a.sin * a.sin + a.cos * a.cos == 1,
            b.sin == -a.sin,
            b.cos == a.cos,
    ;
    assert(b.reversed() == a);
    lemma_round_trip_one_way(s, b);
}

proof fn lemma_round_trip_one_way(s: V6, a: AngleVal)
    requires
        dot(s.head, s.head) == 1,
        a.unit(),
    ensures
        pose_mul(exp_map(s, a), exp_map(s, a.reversed())) == pose_identity(),
{
    let w = s.head;
    let u = s.tail;
    let b = a.reversed();
    let sn = a.sin;
    let v = 1 - a.cos;
    let t = a.theta;
    let g = a.theta - a.sin;
    lemma_rotation_is_poly(w, a);
    lemma_rotation_is_poly(w, b);
    lemma_translation_is_poly(w, a);
    lemma_translation_is_poly(w, b);
    let rot = axis_poly(1, sn, v, w);
    let back = axis_poly(1, -sn, v, w);
    let fwd_g = axis_poly(t, v, g, w);
    let back_g = axis_poly(-t, v, -t - (-sn), w);
    assert(exp_rotation(w, b) == back);
    assert(exp_translation_matrix(w, b) == back_g);
    // the rotation blocks cancel
    lemma_axis_poly_mul(1, sn, v, 1, -sn, v, w);
    assert(1 * (-sn) + sn * 1 - sn * v - v * (-sn) == 0) by (nonlinear_arith);
    assert(1 * v + sn * (-sn) + v * 1 - v * v == 0) by (nonlinear_arith)
        requires
            sn * sn + a.cos * a.cos == 1,
            v == 1 - a.cos,
    ;
    assert(axis_poly(1, 0, 0, w) == m3_identity());
    assert(m3_mul(rot, back) == m3_identity());
    // the translations cancel
    lemma_axis_poly_mul(1, sn, v, -t, v, -t - (-sn), w);
    let pa = 1 * (-t);
    let pb = 1 * v + sn * (-t) - sn * (-t - (-sn)) - v * v;
    let pc = 1 * (-t - (-sn)) + sn * v + v * (-t) - v * (-t - (-sn));
    assert(pa == -t);
    assert(pb == -v) by (nonlinear_arith)
        requires
            sn * sn + a.cos * a.cos == 1,
            v == 1 - a.cos,
            pb == 1 * v + sn * (-t) - sn * (-t - (-sn)) - v * v,
    ;
    assert(pc == -g) by (nonlinear_arith)
        requires
            g == t - sn,
            pc == 1 * (-t - (-sn)) + sn * v + v * (-t) - v * (-t - (-sn)),
    ;
    let prod = m3_mul(rot, back_g);
    assert(prod == axis_poly(-t, -v, -g, w));
    lemma_apply_product(rot, back_g, u);
    let x = w.x;
    let y = w.y;
    let z = w.z;
    assert(prod.r0.x + fwd_g.r0.x == 0 && prod.r0.y + fwd_g.r0.y == 0 && prod.r0.z + fwd_g.r0.z == 0
        && prod.r1.x + fwd_g.r1.x == 0 && prod.r1.y + fwd_g.r1.y == 0 && prod.r1.z + fwd_g.r1.z == 0
        && prod.r2.x + fwd_g.r2.x == 0 && prod.r2.y + fwd_g.r2.y == 0 && prod.r2.z + fwd_g.r2.z
        == 0) by (nonlinear_arith)
        requires
            prod == axis_poly(-t, -v, -g, w),
            fwd_g == axis_poly(t, v, g, w),
    ;
    lemma_opposite_rows(prod.r0.x, prod.r0.y, prod.r0.z, fwd_g.r0.x, fwd_g.r0.y, fwd_g.r0.z, u);
    lemma_opposite_rows(prod.r1.x, prod.r1.y, prod.r1.z, fwd_g.r1.x, fwd_g.r1.y, fwd_g.r1.z, u);
    lemma_opposite_rows(prod.r2.x, prod.r2.y, prod.r2.z, fwd_g.r2.x, fwd_g.r2.y, fwd_g.r2.z, u);
    assert(v3_add(m3_apply(prod, u), m3_apply(fwd_g, u)) == v3_zero());
    assert(exp_map(s, a).pos == m3_apply(fwd_g, u));
    assert(exp_map(s, b).pos == m3_apply(back_g, u));
}

/// The identity is a proper rotation.
pub proof fn lemma_identity_proper()
    ensures
        proper_rotation(m3_identity()),
{
    let r = m3_identity();
    assert(m3_mul(r, m3_transpose(r)) == m3_identity() && m3_det(r) == 1) by (nonlinear_arith)
        requires
            r == m3(v3(1, 0, 0), v3(0, 1, 0), v3(0, 0, 1)),
    ;
}

/// Matrix multiplication is associative.
pub proof fn lemma_mul_assoc(a: M3, b: M3, c: M3)
    ensures
        m3_mul(m3_mul(a, b), c) == m3_mul(a, m3_mul(b, c)),
{
    lemma_apply_product(a, b, col0(c));
    lemma_apply_product(a, b, col1(c));
    lemma_apply_product(a, b, col2(c));
}

proof fn lemma_dot_commutes(a: V3, b: V3)
    ensures
        dot(a, b) == dot(b, a),
{
    assert(a.x * b.x == b.x * a.x) by (nonlinear_arith);
    assert(a.y * b.y == b.y * a.y) by (nonlinear_arith);
    assert(a.z * b.z == b.z * a.z) by (nonlinear_arith);
}

/// The transpose of a product is the product of the transposes in reverse.
pub proof fn lemma_transpose_product(a: M3, b: M3)
    ensures
        m3_transpose(m3_mul(a, b)) == m3_mul(m3_transpose(b), m3_transpose(a)),
{
    lemma_dot_commutes(a.r0, col0(b));
    lemma_dot_commutes(a.r0, col1(b));
    lemma_dot_commutes(a.r0, col2(b));
    lemma_dot_commutes(a.r1, col0(b));
    lemma_dot_commutes(a.r1, col1(b));
    lemma_dot_commutes(a.r1, col2(b));
    lemma_dot_commutes(a.r2, col0(b));
    lemma_dot_commutes(a.r2, col1(b));
    lemma_dot_commutes(a.r2, col2(b));
}

/// The identity is neutral for the matrix product.
pub proof fn lemma_mul_identity(a: M3)
    ensures
        m3_mul(m3_identity(), a) == a,
        m3_mul(a, m3_identity()) == a,
{
}

/// The combination `k·u + l·v + m·w` of three vectors.
spec fn combine(k: int, l: int, m: int, u: V3, v: V3, w: V3) -> V3 {
    v3(
        k * u.x + l * v.x + m * w.x,
        k * u.y + l * v.y + m * w.y,
        k * u.z + l * v.z + m * w.z,
    )
}

proof fn lemma_mul_commutes(a: int, b: int)
    by (nonlinear_arith)
    ensures
        a * b == b * a,
{
}

proof fn lemma_swap(a: int, b: int, c: int, d: int)
    ensures
        (a * b) * (c * d) == (a * c) * (b * d),
{
    assert((a * b) * (c * d) == a * (b * (c * d))) by (nonlinear_arith);
    assert(b * (c * d) == c * (b * d)) by (nonlinear_arith);
    assert(a * (c * (b * d)) == (a * c) * (b * d)) by (nonlinear_arith);
}

proof fn lemma_expand33(a1: int, a2: int, a3: int, b1: int, b2: int, b3: int)
    ensures
        (a1 + a2 + a3) * (b1 + b2 + b3) == a1 * b1 + a1 * b2 + a1 * b3 + a2 * b1 + a2 * b2 + a2 * b3
            + a3 * b1 + a3 * b2 + a3 * b3,
{
    let b = b1 + b2 + b3;
    assert((a1 + a2 + a3) * b == a1 * b + a2 * b + a3 * b) by (nonlinear_arith);
    assert(a1 * (b1 + b2 + b3) == a1 * b1 + a1 * b2 + a1 * b3) by (nonlinear_arith);
    assert(a2 * (b1 + b2 + b3) == a2 * b1 + a2 * b2 + a2 * b3) by (nonlinear_arith);
    assert(a3 * (b1 + b2 + b3) == a3 * b1 + a3 * b2 + a3 * b3) by (nonlinear_arith);
}

proof fn lemma_expand22(a: int, b: int, c: int, d: int)
    ensures
        (a - b) * (c - d) == a * c - a * d - b * c + b * d,
{
    let e = c - d;
    assert((a - b) * e == a * e - b * e) by (nonlinear_arith);
    assert(a * (c - d) == a * c - a * d) by (nonlinear_arith);
    assert(b * (c - d) == b * c - b * d) by (nonlinear_arith);
}

proof fn lemma_cross_slice(
    p: int, q: int, r: int, p2: int, q2: int, r2: int,
    ua: int, va: int, wa: int, ub: int, vb: int, wb: int,
)
    ensures
        (p * ua + q * va + r * wa) * (p2 * ub + q2 * vb + r2 * wb) - (p * ub + q * vb + r * wb) * (p2
            * ua + q2 * va + r2 * wa) == (p * q2 - q * p2) * (ua * vb - ub * va) + (q * r2 - r * q2)
            * (va * wb - vb * wa) + (r * p2 - p * r2) * (wa * ub - wb * ua),
{
    lemma_expand33(p * ua, q * va, r * wa, p2 * ub, q2 * vb, r2 * wb);
    lemma_expand33(p * ub, q * vb, r * wb, p2 * ua, q2 * va, r2 * wa);
    lemma_swap(p, ua, p2, ub);
    lemma_swap(p, ub, p2, ua);
    lemma_swap(p, ua, q2, vb);
    lemma_swap(p, ub, q2, va);
    lemma_swap(p, ua, r2, wb);
    lemma_swap(p, ub, r2, wa);
    lemma_swap(q, va, p2, ub);
    lemma_swap(q, vb, p2, ua);
    lemma_swap(q, va, q2, vb);
    lemma_swap(q, vb, q2, va);
    lemma_swap(q, va, r2, wb);
    lemma_swap(q, vb, r2, wa);
    lemma_swap(r, wa, p2, ub);
    lemma_swap(r, wb, p2, ua);
    lemma_swap(r, wa, q2, vb);
    lemma_swap(r, wb, q2, va);
    lemma_swap(r, wa, r2, wb);
    lemma_swap(r, wb, r2, wa);
    lemma_mul_commutes(ua, ub);
    lemma_mul_commutes(ua, vb);
    lemma_mul_commutes(ua, wb);
    lemma_mul_commutes(va, ub);
    lemma_mul_commutes(va, vb);
    lemma_mul_commutes(va, wb);
    lemma_mul_commutes(wa, ub);
    lemma_mul_commutes(wa, vb);
    lemma_mul_commutes(wa, wb);
    lemma_expand22(p * q2, q * p2, ua * vb, ub * va);
    lemma_expand22(q * r2, r * q2, va * wb, vb * wa);
    lemma_expand22(r * p2, p * r2, wa * ub, wb * ua);
}

/// The vector product of two combinations of `u`, `v`, `w` is a
/// combination of `u × v`, `v × w` and `w × u`.
proof fn lemma_cross_combine(
    p: int, q: int, r: int, p2: int, q2: int, r2: int, u: V3, v: V3, w: V3,
)
    ensures
        cross(combine(p, q, r, u, v, w), combine(p2, q2, r2, u, v, w)) == combine(
            p * q2 - q * p2,
            q * r2 - r * q2,
            r * p2 - p * r2,
            cross(u, v),
            cross(v, w),
            cross(w, u),
        ),
{
    lemma_cross_slice(p, q, r, p2, q2, r2, u.y, v.y, w.y, u.z, v.z, w.z);
    lemma_cross_slice(p, q, r, p2, q2, r2, u.z, v.z, w.z, u.x, v.x, w.x);
    lemma_cross_slice(p, q, r, p2, q2, r2, u.x, v.x, w.x, u.y, v.y, w.y);
}

proof fn lemma_term_left(k: int, l: int, m: int, a: int, b: int, c: int, t: int)
    ensures
        (k * a + l * b + m * c) * t == k * (a * t) + l * (b * t) + m * (c * t),
{
    lemma_gather(k * a, l * b, m * c, t);
    assert((k * a) * t == k * (a * t)) by (nonlinear_arith);
    assert((l * b) * t == l * (b * t)) by (nonlinear_arith);
    assert((m * c) * t == m * (c * t)) by (nonlinear_arith);
}

proof fn lemma_sum_scaled(k: int, a: int, b: int, c: int)
    by (nonlinear_arith)
    ensures
        k * a + k * b + k * c == k * (a + b + c),
{
}

/// The inner product is linear in its first argument.
proof fn lemma_dot_combine(k: int, l: int, m: int, u: V3, v: V3, w: V3, t: V3)
    ensures
        dot(combine(k, l, m, u, v, w), t) == k * dot(u, t) + l * dot(v, t) + m * dot(w, t),
{
    lemma_term_left(k, l, m, u.x, v.x, w.x, t.x);
    lemma_term_left(k, l, m, u.y, v.y, w.y, t.y);
    lemma_term_left(k, l, m, u.z, v.z, w.z, t.z);
    lemma_sum_scaled(k, u.x * t.x, u.y * t.y, u.z * t.z);
    lemma_sum_scaled(l, v.x * t.x, v.y * t.y, v.z * t.z);
    lemma_sum_scaled(m, w.x * t.x, w.y * t.y, w.z * t.z);
}

/// A vector is orthogonal to its vector product with any other, and the
/// triple product does not change when its three vectors rotate places.
proof fn lemma_triple(u: V3, v: V3, w: V3)
    ensures
        dot(u, cross(u, v)) == 0,
        dot(v, cross(u, v)) == 0,
        dot(w, cross(u, v)) == dot(u, cross(v, w)),
{
    lemma_triple_ints(u.x, u.y, u.z, v.x, v.y, v.z, w.x, w.y, w.z);
}

proof fn lemma_orders(a: int, b: int, c: int)
    ensures
        a * (c * b) == a * (b * c),
        b * (a * c) == a * (b * c),
        b * (c * a) == a * (b * c),
        c * (a * b) == a * (b * c),
        c * (b * a) == a * (b * c),
{
    assert(a * (c * b) == a * (b * c)) by (nonlinear_arith);
    assert(b * (a * c) == a * (b * c)) by (nonlinear_arith);
    assert(b * (c * a) == a * (b * c)) by (nonlinear_arith);
    assert(c * (a * b) == a * (b * c)) by (nonlinear_arith);
    assert(c * (b * a) == a * (b * c)) by (nonlinear_arith);
}

proof fn lemma_spread_difference(k: int, a: int, b: int)
    by (nonlinear_arith)
    ensures
        k * (a - b) == k * a - k * b,
{
}

proof fn lemma_triple_ints(
    ux: int, uy: int, uz: int, vx: int, vy: int, vz: int, wx: int, wy: int, wz: int,
)
    ensures
        ux * (uy * vz - uz * vy) + uy * (uz * vx - ux * vz) + uz * (ux * vy - uy * vx) == 0,
        vx * (uy * vz - uz * vy) + vy * (uz * vx - ux * vz) + vz * (ux * vy - uy * vx) == 0,
        wx * (uy * vz - uz * vy) + wy * (uz * vx - ux * vz) + wz * (ux * vy - uy * vx) == ux * (vy
            * wz - vz * wy) + uy * (vz * wx - vx * wz) + uz * (vx * wy - vy * wx),
{
    lemma_spread_difference(ux, uy * vz, uz * vy);
    lemma_spread_difference(uy, uz * vx, ux * vz);
    lemma_spread_difference(uz, ux * vy, uy * vx);
    lemma_spread_difference(vx, uy * vz, uz * vy);
    lemma_spread_difference(vy, uz * vx, ux * vz);
    lemma_spread_difference(vz, ux * vy, uy * vx);
    lemma_spread_difference(wx, uy * vz, uz * vy);
    lemma_spread_difference(wy, uz * vx, ux * vz);
    lemma_spread_difference(wz, ux * vy, uy * vx);
    lemma_spread_difference(ux, vy * wz, vz * wy);
    lemma_spread_difference(uy, vz * wx, vx * wz);
    lemma_spread_difference(uz, vx * wy, vy * wx);
    lemma_orders(ux, uy, vz);
    lemma_orders(ux, uz, vy);
    lemma_orders(uy, uz, vx);
    lemma_orders(vx, uy, vz);
    lemma_orders(vx, uz, vy);
    lemma_orders(vy, ux, vz);
    lemma_orders(ux, vy, wz);
    lemma_orders(ux, vz, wy);
    lemma_orders(uy, vz, wx);
    lemma_orders(uy, vx, wz);
    lemma_orders(uz, vx, wy);
    lemma_orders(uz, vy, wx);
}

proof fn lemma_det_assemble(k: int, l: int, m: int, x: int, y: int, z: int, d: int)
    ensures
        k * (y * d) + l * (z * d) + m * (x * d) == (k * y + l * z + m * x) * d,
{
    lemma_gather(k * y, l * z, m * x, d);
    assert((k * y) * d == k * (y * d)) by (nonlinear_arith);
    assert((l * z) * d == l * (z * d)) by (nonlinear_arith);
    assert((m * x) * d == m * (x * d)) by (nonlinear_arith);
}

/// The determinant of a product is the product of the determinants.
pub proof fn lemma_det_product(a: M3, b: M3)
    ensures
        m3_det(m3_mul(a, b)) == m3_det(a) * m3_det(b),
{
    let u = b.r0;
    let v = b.r1;
    let w = b.r2;
    let c = m3_mul(a, b);
    assert(c.r0 == combine(a.r0.x, a.r0.y, a.r0.z, u, v, w));
    assert(c.r1 == combine(a.r1.x, a.r1.y, a.r1.z, u, v, w));
    assert(c.r2 == combine(a.r2.x, a.r2.y, a.r2.z, u, v, w));
    let x = a.r1.x * a.r2.y - a.r1.y * a.r2.x;
    let y = a.r1.y * a.r2.z - a.r1.z * a.r2.y;
    let z = a.r1.z * a.r2.x - a.r1.x * a.r2.z;
    let pq = cross(u, v);
    let qr = cross(v, w);
    let rp = cross(w, u);
    lemma_cross_combine(a.r1.x, a.r1.y, a.r1.z, a.r2.x, a.r2.y, a.r2.z, u, v, w);
    let t = combine(x, y, z, pq, qr, rp);
    assert(cross(c.r1, c.r2) == t);
    lemma_dot_combine(a.r0.x, a.r0.y, a.r0.z, u, v, w, t);
    let d = dot(u, qr);
    lemma_triple(u, v, w);
    lemma_triple(v, w, u);
    lemma_triple(w, u, v);
    lemma_dot_commutes(u, t);
    lemma_dot_commutes(v, t);
    lemma_dot_commutes(w, t);
    lemma_dot_combine(x, y, z, pq, qr, rp, u);
    lemma_dot_combine(x, y, z, pq, qr, rp, v);
    lemma_dot_combine(x, y, z, pq, qr, rp, w);
    lemma_dot_commutes(pq, u);
    lemma_dot_commutes(qr, u);
    lemma_dot_commutes(rp, u);
    lemma_dot_commutes(pq, v);
    lemma_dot_commutes(qr, v);
    lemma_dot_commutes(rp, v);
    lemma_dot_commutes(pq, w);
    lemma_dot_commutes(qr, w);
    lemma_dot_commutes(rp, w);
    assert(dot(u, pq) == 0 && dot(v, pq) == 0 && dot(w, pq) == d);
    assert(dot(v, qr) == 0 && dot(w, qr) == 0);
    assert(dot(w, rp) == 0 && dot(u, rp) == 0 && dot(v, rp) == d);
    assert(dot(u, t) == y * d);
    assert(dot(v, t) == z * d);
    assert(dot(w, t) == x * d);
    lemma_det_assemble(a.r0.x, a.r0.y, a.r0.z, x, y, z, d);
    assert(m3_det(a) == a.r0.x * y + a.r0.y * z + a.r0.z * x);
    assert(m3_det(b) == d);
}

/// The product of two proper rotations is a proper rotation.
pub proof fn lemma_product_proper(a: M3, b: M3)
    requires
        proper_rotation(a),
        proper_rotation(b),
    ensures
        proper_rotation(m3_mul(a, b)),
{
    let at = m3_transpose(a);
    let bt = m3_transpose(b);
    lemma_transpose_product(a, b);
    lemma_mul_assoc(a, b, m3_mul(bt, at));
    lemma_mul_assoc(b, bt, at);
    lemma_mul_identity(at);
    assert(m3_mul(b, m3_mul(bt, at)) == at);
    lemma_det_product(a, b);
    assert(m3_det(a) * m3_det(b) == 1) by (nonlinear_arith)
        requires
            m3_det(a) == 1,
            m3_det(b) == 1,
    ;
}

} // verus!
