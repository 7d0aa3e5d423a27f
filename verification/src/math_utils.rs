//! The maps of screw theory: the cross-product operator, the exponential of
//! a twist, and the adjoint of a rigid transform.
use vstd::prelude::*;
use crate::program::Program;
use crate::linalg::{
    V3, M3, V6, M6, Vec3, Mat3, Vec6, Mat6, v3, v3_zero, cross, m3, m3_zero, m3_identity, m3_add,
    m3_scale, m3_mul, m3_apply, m6_identity,
};
use crate::rigid::{Pose, AngleVal, Angle, Transform, pose_identity};

verus! {

/// The skew-symmetric matrix `[w]` of a vector: `[w] · x` is `w × x`.
pub open spec fn skew(w: V3) -> M3 {
    m3(v3(0, -w.z, w.y), v3(w.z, 0, -w.x), v3(-w.y, w.x, 0))
}

/// Rodrigues' formula: `I + sin θ · [w] + (1 − cos θ) · [w]²`.
pub open spec fn exp_rotation(w: V3, a: AngleVal) -> M3 {
    let k = skew(w);
    m3_add(m3_add(m3_identity(), m3_scale(a.sin, k)), m3_scale(1 - a.cos, m3_mul(k, k)))
}

/// The matrix `θ · I + (1 − cos θ) · [w] + (θ − sin θ) · [w]²`.
pub open spec fn exp_translation_matrix(w: V3, a: AngleVal) -> M3 {
    let k = skew(w);
    m3_add(
        m3_add(m3_scale(a.theta, m3_identity()), m3_scale(1 - a.cos, k)),
        m3_scale(a.theta - a.sin, m3_mul(k, k)),
    )
}

/// The translation of the exponential: the matrix above applied to the
/// linear part `v`.
pub open spec fn exp_translation(v: V3, w: V3, a: AngleVal) -> V3 {
    m3_apply(exp_translation_matrix(w, a), v)
}

/// The exponential `exp([S] θ)` of the screw axis `s` by the angle `a`.
pub open spec fn exp_map(s: V6, a: AngleVal) -> Pose {
    Pose { rot: exp_rotation(s.head, a), pos: exp_translation(s.tail, s.head, a) }
}

/// The adjoint of the transform `(R, p)`: `R 0` above `[p]·R R`.
pub open spec fn adjoint(t: Pose) -> M6 {
    M6 { tl: t.rot, tr: m3_zero(), bl: m3_mul(skew(t.pos), t.rot), br: t.rot }
}

/// Builds the cross-product operator `[vector]`.
pub fn cross_product_operator(p: &mut Program, vector: &Vec3) -> (r: Mat3)
    requires
        vector.within(old(p)),
    ensures
        final(p).extends(old(p)),
        r.within(final(p)),
        forall|env: Seq<int>| #[trigger] r.val(env) == skew(vector.val(env)),
{
    let zero = p.constant(0);
    let nx = p.neg(vector.x);
    let ny = p.neg(vector.y);
    let nz = p.neg(vector.z);
    Mat3 {
        r0: Vec3 { x: zero, y: nz, z: vector.y },
        r1: Vec3 { x: vector.z, y: zero, z: nx },
        r2: Vec3 { x: ny, y: vector.x, z: zero },
    }
}

/// Builds the rotation block of the exponential by Rodrigues' formula.
pub fn exponential_form_rotation(p: &mut Program, angular: &Vec3, theta: &Angle) -> (r: Mat3)
    requires
        angular.within(old(p)),
        theta.within(old(p)),
    ensures
        final(p).extends(old(p)),
        r.within(final(p)),
        forall|env: Seq<int>| #[trigger] r.val(env) == exp_rotation(angular.val(env), theta.val(env)),
{
    let k = cross_product_operator(p, angular);
    let kk = Mat3::mul(p, &k, &k);
    let id = Mat3::identity(p);
    let sk = Mat3::scale(p, theta.sin, &k);
    let one = p.constant(1);
    let versine = p.sub(one, theta.cos);
    let vkk = Mat3::scale(p, versine, &kk);
    let first = Mat3::add(p, &id, &sk);
    Mat3::add(p, &first, &vkk)
}

/// Builds the translation of the exponential.
pub fn exponential_form_translation(
    p: &mut Program,
    linear: &Vec3,
    angular: &Vec3,
    theta: &Angle,
) -> (r: Vec3)
    requires
        linear.within(old(p)),
        angular.within(old(p)),
        theta.within(old(p)),
    ensures
        final(p).extends(old(p)),
        r.within(final(p)),
        forall|env: Seq<int>| #[trigger] r.val(env) == exp_translation(
            linear.val(env),
            angular.val(env),
            theta.val(env),
        ),
{
    let k = cross_product_operator(p, angular);
    let kk = Mat3::mul(p, &k, &k);
    let id = Mat3::identity(p);
    let ti = Mat3::scale(p, theta.theta, &id);
    let one = p.constant(1);
    let versine = p.sub(one, theta.cos);
    let vk = Mat3::scale(p, versine, &k);
    let lag = p.sub(theta.theta, theta.sin);
    let lkk = Mat3::scale(p, lag, &kk);
    let first = Mat3::add(p, &ti, &vk);
    let g = Mat3::add(p, &first, &lkk);
    Mat3::apply(p, &g, linear)
}

/// Builds the exponential `exp([S] θ)` of a screw axis: Rodrigues' rotation
/// and the matching translation.
pub fn exponential_map(p: &mut Program, action_axis: &Vec6, theta: &Angle) -> (r: Transform)
    requires
        action_axis.within(old(p)),
        theta.within(old(p)),
    ensures
        final(p).extends(old(p)),
        r.within(final(p)),
        forall|env: Seq<int>| #[trigger] r.val(env) == exp_map(action_axis.val(env), theta.val(env)),
{
    let rot = exponential_form_rotation(p, &action_axis.head, theta);
    let pos = exponential_form_translation(p, &action_axis.tail, &action_axis.head, theta);
    Transform { rot, pos }
}

/// Builds the adjoint of a rigid transform.
pub fn ad(p: &mut Program, mat4: &Transform) -> (r: Mat6)
    requires
        mat4.within(old(p)),
    ensures
        final(p).extends(old(p)),
        r.within(final(p)),
        forall|env: Seq<int>| #[trigger] r.val(env) == adjoint(mat4.val(env)),
{
    let tr = Mat3::zero(p);
    let k = cross_product_operator(p, &mat4.pos);
    let bl = Mat3::mul(p, &k, &mat4.rot);
    Mat6 { tl: mat4.rot, tr, bl, br: mat4.rot }
}

/// The cross-product operator applied to `x` is the vector product with `x`.
pub proof fn lemma_skew_is_cross(w: V3, x: V3)
    ensures
        m3_apply(skew(w), x) == cross(w, x),
{
    assert(m3_apply(skew(w), x) == cross(w, x)) by (nonlinear_arith)
        requires
            true,
    ;
}

/// The cross-product operator is skew-symmetric.
pub proof fn lemma_skew_antisymmetric(w: V3)
    ensures
        crate::linalg::m3_transpose(skew(w)) == m3_scale(-1, skew(w)),
{
}

/// The cross-product operator is the only matrix that takes every `x` to
/// `w × x`.
pub proof fn lemma_skew_unique(m: M3, w: V3)
    requires
        forall|x: V3| #[trigger] m3_apply(m, x) == cross(w, x),
    ensures
        m == skew(w),
{
    let e0 = v3(1, 0, 0);
    let e1 = v3(0, 1, 0);
    let e2 = v3(0, 0, 1);
    assert(m3_apply(m, e0) == cross(w, e0));
    assert(m3_apply(m, e1) == cross(w, e1));
    assert(m3_apply(m, e2) == cross(w, e2));
    assert(m3_apply(m, e0) == crate::linalg::col0(m)) by (nonlinear_arith)
        requires
            e0 == v3(1, 0, 0),
    ;
    assert(m3_apply(m, e1) == crate::linalg::col1(m)) by (nonlinear_arith)
        requires
            e1 == v3(0, 1, 0),
    ;
    assert(m3_apply(m, e2) == crate::linalg::col2(m)) by (nonlinear_arith)
        requires
            e2 == v3(0, 0, 1),
    ;
    assert(cross(w, e0) == v3(0, w.z, -w.y)) by (nonlinear_arith)
        requires
            e0 == v3(1, 0, 0),
    ;
    assert(cross(w, e1) == v3(-w.z, 0, w.x)) by (nonlinear_arith)
        requires
            e1 == v3(0, 1, 0),
    ;
    assert(cross(w, e2) == v3(w.y, -w.x, 0)) by (nonlinear_arith)
        requires
            e2 == v3(0, 0, 1),
    ;
}

/// The adjoint of the identity transform is the 6×6 identity.
pub proof fn lemma_adjoint_identity()
    ensures
        adjoint(pose_identity()) == m6_identity(),
{
}

/// The exponential by the angle zero is the identity, whatever the axis.
pub proof fn lemma_exp_zero(s: V6)
    ensures
        exp_map(s, AngleVal::zero()) == pose_identity(),
{
    let k = skew(s.head);
    let kk = m3_mul(k, k);
    assert(m3_scale(0, k) == m3_zero());
    assert(m3_scale(0, kk) == m3_zero());
    assert(m3_scale(0, m3_identity()) == m3_zero());
    assert(exp_rotation(s.head, AngleVal::zero()) == m3_identity());
    assert(exp_translation_matrix(s.head, AngleVal::zero()) == m3_zero());
    assert(m3_apply(m3_zero(), s.tail) == v3_zero());
}

} // verus!
