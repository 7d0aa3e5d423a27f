//! Rigid transforms: a rotation block and a translation, standing for the
//! 4×4 homogeneous matrix whose bottom row is `0 0 0 1`.
use vstd::prelude::*;
use crate::program::{Program, Wire};
use crate::linalg::{
    V3, M3, Vec3, Mat3, v3_zero, v3_add, v3_sub, dot, m3_zero, m3_identity, m3_mul, m3_apply,
    m3_sub,
};

verus! {

/// A rigid transform as numbers: rotation block and translation.
pub struct Pose {
    pub rot: M3,
    pub pos: V3,
}

/// The difference of two homogeneous matrices, block by block. Its bottom
/// row is zero, since both bottom rows are `0 0 0 1`.
pub struct PoseGap {
    pub rot: M3,
    pub pos: V3,
}

/// An angle as a host hands it over: the angle, its sine and its cosine.
pub struct AngleVal {
    pub theta: int,
    pub sin: int,
    pub cos: int,
}

impl AngleVal {
    /// Sine and cosine lie on the unit circle.
    pub open spec fn unit(self) -> bool {
        self.sin * self.sin + self.cos * self.cos == 1
    }

    /// The angle zero.
    pub open spec fn zero() -> AngleVal {
        AngleVal { theta: 0, sin: 0, cos: 1 }
    }

    /// The opposite angle.
    pub open spec fn reversed(self) -> AngleVal {
        AngleVal { theta: -self.theta, sin: -self.sin, cos: self.cos }
    }
}

pub open spec fn pose_identity() -> Pose {
    Pose { rot: m3_identity(), pos: v3_zero() }
}

/// The composition `a · b`: the product of the two homogeneous matrices.
pub open spec fn pose_mul(a: Pose, b: Pose) -> Pose {
    Pose { rot: m3_mul(a.rot, b.rot), pos: v3_add(m3_apply(a.rot, b.pos), a.pos) }
}

/// The difference `a − b` of the two homogeneous matrices.
pub open spec fn pose_sub(a: Pose, b: Pose) -> PoseGap {
    PoseGap { rot: m3_sub(a.rot, b.rot), pos: v3_sub(a.pos, b.pos) }
}

/// The square of the norm of a difference: the sum of the squares of all
/// its entries.
pub open spec fn gap_norm_squared(g: PoseGap) -> int {
    dot(g.rot.r0, g.rot.r0) + dot(g.rot.r1, g.rot.r1) + dot(g.rot.r2, g.rot.r2) + dot(g.pos, g.pos)
}

/// The difference of a matrix with itself.
pub open spec fn gap_zero() -> PoseGap {
    PoseGap { rot: m3_zero(), pos: v3_zero() }
}

pub open spec fn v3_at(v: V3, i: int) -> int {
    if i == 0 {
        v.x
    } else if i == 1 {
        v.y
    } else {
        v.z
    }
}

impl Pose {
    /// The entry in row `i` and column `j` of the 4×4 homogeneous matrix.
    pub open spec fn entry(self, i: int, j: int) -> int {
        if i == 3 {
            if j == 3 {
                1
            } else {
                0
            }
        } else {
            let row = if i == 0 {
                self.rot.r0
            } else if i == 1 {
                self.rot.r1
            } else {
                self.rot.r2
            };
            if j == 3 {
                v3_at(self.pos, i)
            } else {
                v3_at(row, j)
            }
        }
    }
}

/// The wires of an angle, its sine and its cosine.
#[derive(Clone, Copy)]
pub struct Angle {
    pub theta: Wire,
    pub sin: Wire,
    pub cos: Wire,
}

impl Angle {
    /// The angle carried when the inputs read `env`.
    pub open spec fn val(self, env: Seq<int>) -> AngleVal {
        AngleVal { theta: self.theta.val(env), sin: self.sin.val(env), cos: self.cos.val(env) }
    }

    /// All three wires are wires of `p`.
    pub open spec fn within(self, p: &Program) -> bool {
        p.holds(self.theta) && p.holds(self.sin) && p.holds(self.cos)
    }

    /// An angle read from three input slots in a row: the angle at `slot`,
    /// its sine at `slot + 1`, its cosine at `slot + 2`.
    pub fn inputs(p: &mut Program, slot: usize) -> (a: Angle)
        requires
            slot + 2 <= usize::MAX,
        ensures
            final(p).extends(old(p)),
            a.within(final(p)),
            forall|env: Seq<int>| #[trigger] a.val(env) == (AngleVal {
                theta: crate::program::slot_value(env, slot as int),
                sin: crate::program::slot_value(env, slot + 1),
                cos: crate::program::slot_value(env, slot + 2),
            }),
    {
        let theta = p.input(slot);
        let sin = p.input(slot + 1);
        let cos = p.input(slot + 2);
        Angle { theta, sin, cos }
    }
}

/// The wires of a rigid transform.
#[derive(Clone, Copy)]
pub struct Transform {
    pub rot: Mat3,
    pub pos: Vec3,
}

/// The wires of the difference of two transforms.
#[derive(Clone, Copy)]
pub struct ErrorMatrix {
    pub rot: Mat3,
    pub pos: Vec3,
}

impl ErrorMatrix {
    /// The difference carried when the inputs read `env`.
    pub open spec fn val(self, env: Seq<int>) -> PoseGap {
        PoseGap { rot: self.rot.val(env), pos: self.pos.val(env) }
    }

    /// All twelve wires are wires of `p`.
    pub open spec fn within(self, p: &Program) -> bool {
        self.rot.within(p) && self.pos.within(p)
    }
}

impl ErrorMatrix {
    /// Builds the square of the norm of the difference `e`.
    pub fn norm_squared(p: &mut Program, e: &ErrorMatrix) -> (n: Wire)
        requires
            e.within(old(p)),
        ensures
            final(p).extends(old(p)),
            final(p).holds(n),
            forall|env: Seq<int>| #[trigger] n.val(env) == gap_norm_squared(e.val(env)),
    {
        let a = Vec3::dot(p, &e.rot.r0, &e.rot.r0);
        let b = Vec3::dot(p, &e.rot.r1, &e.rot.r1);
        let c = Vec3::dot(p, &e.rot.r2, &e.rot.r2);
        let d = Vec3::dot(p, &e.pos, &e.pos);
        let ab = p.add(a, b);
        let abc = p.add(ab, c);
        let n = p.add(abc, d);
        proof {
            assert forall|env: Seq<int>| #[trigger] n.val(env) == gap_norm_squared(e.val(env)) by {
                let g = e.val(env);
                assert(a.val(env) == dot(g.rot.r0, g.rot.r0));
                assert(b.val(env) == dot(g.rot.r1, g.rot.r1));
                assert(c.val(env) == dot(g.rot.r2, g.rot.r2));
                assert(d.val(env) == dot(g.pos, g.pos));
            }
        }
        n
    }
}

impl Transform {
    /// The transform carried when the inputs read `env`.
    pub open spec fn val(self, env: Seq<int>) -> Pose {
        Pose { rot: self.rot.val(env), pos: self.pos.val(env) }
    }

    /// All twelve wires are wires of `p`.
    pub open spec fn within(self, p: &Program) -> bool {
        self.rot.within(p) && self.pos.within(p)
    }

    /// The identity transform.
    pub fn identity(p: &mut Program) -> (r: Transform)
        ensures
            final(p).extends(old(p)),
            r.within(final(p)),
            forall|env: Seq<int>| #[trigger] r.val(env) == pose_identity(),
    {
        let rot = Mat3::identity(p);
        let pos = Vec3::zero(p);
        Transform { rot, pos }
    }

    /// The composition `a · b`.
    pub fn compose(p: &mut Program, a: &Transform, b: &Transform) -> (r: Transform)
        requires
            a.within(old(p)),
            b.within(old(p)),
        ensures
            final(p).extends(old(p)),
            r.within(final(p)),
            forall|env: Seq<int>| #[trigger] r.val(env) == pose_mul(a.val(env), b.val(env)),
    {
        let rot = Mat3::mul(p, &a.rot, &b.rot);
        let moved = Mat3::apply(p, &a.rot, &b.pos);
        let pos = Vec3::add(p, &moved, &a.pos);
        Transform { rot, pos }
    }

    /// The difference `a − b` of the two homogeneous matrices.
    pub fn sub(p: &mut Program, a: &Transform, b: &Transform) -> (r: ErrorMatrix)
        requires
            a.within(old(p)),
            b.within(old(p)),
        ensures
            final(p).extends(old(p)),
            r.within(final(p)),
            forall|env: Seq<int>| #[trigger] r.val(env) == pose_sub(a.val(env), b.val(env)),
    {
        let rot = Mat3::sub(p, &a.rot, &b.rot);
        let pos = Vec3::sub(p, &a.pos, &b.pos);
        ErrorMatrix { rot, pos }
    }
}

/// Composing with the identity on either side changes nothing.
pub proof fn lemma_pose_identity(a: Pose)
    ensures
        pose_mul(pose_identity(), a) == a,
        pose_mul(a, pose_identity()) == a,
{
}

proof fn lemma_square_sum(v: V3)
    ensures
        dot(v, v) >= 0,
        dot(v, v) == 0 <==> v == v3_zero(),
{
    assert(v.x * v.x >= 0 && (v.x * v.x == 0 <==> v.x == 0)) by (nonlinear_arith);
    assert(v.y * v.y >= 0 && (v.y * v.y == 0 <==> v.y == 0)) by (nonlinear_arith);
    assert(v.z * v.z >= 0 && (v.z * v.z == 0 <==> v.z == 0)) by (nonlinear_arith);
}

/// The squared norm of a difference is never negative, and it is zero for
/// the zero difference only.
pub proof fn lemma_gap_norm(g: PoseGap)
    ensures
        gap_norm_squared(g) >= 0,
        gap_norm_squared(g) == 0 <==> g == gap_zero(),
{
    lemma_square_sum(g.rot.r0);
    lemma_square_sum(g.rot.r1);
    lemma_square_sum(g.rot.r2);
    lemma_square_sum(g.pos);
}

} // verus!
