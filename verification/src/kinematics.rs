//! Forward kinematics by the product of exponentials, the per-joint link
//! transforms, the analytic Jacobian and one round of the joint solver.
use vstd::prelude::*;
use crate::program::{Program, Wire};
use crate::linalg::{
    V3, M3, V6, M6, Vec3, Mat3, Vec6, Mat6, v3, v3_zero, dot, m3, m3_zero, m3_identity, m3_mul,
    m3_apply, m3_transpose, m3_det, m6_apply, m6_mul, v6_add, v6_sub, proper_rotation,
};
use crate::rigid::{
    Pose, AngleVal, Angle, Transform, ErrorMatrix, pose_identity, pose_mul, pose_sub,
    gap_norm_squared, gap_zero,
};
use crate::math_utils::{skew, exp_map, adjoint, cross_product_operator, exponential_map, ad};

verus! {

/// The six lengths that fix the arm's geometry, as numbers.
pub struct Lengths {
    pub l1: int,
    pub l2: int,
    pub h1: int,
    pub h2: int,
    pub w1: int,
    pub w2: int,
}

/// The wires of the six lengths.
#[derive(Clone, Copy)]
pub struct LinkLengths {
    pub l1: Wire,
    pub l2: Wire,
    pub h1: Wire,
    pub h2: Wire,
    pub w1: Wire,
    pub w2: Wire,
}

impl LinkLengths {
    /// The lengths carried when the inputs read `env`.
    pub open spec fn val(self, env: Seq<int>) -> Lengths {
        Lengths {
            l1: self.l1.val(env),
            l2: self.l2.val(env),
            h1: self.h1.val(env),
            h2: self.h2.val(env),
            w1: self.w1.val(env),
            w2: self.w2.val(env),
        }
    }

    /// All six wires are wires of `p`.
    pub open spec fn within(self, p: &Program) -> bool {
        &&& p.holds(self.l1)
        &&& p.holds(self.l2)
        &&& p.holds(self.h1)
        &&& p.holds(self.h2)
        &&& p.holds(self.w1)
        &&& p.holds(self.w2)
    }
}

/// The constants of one link, as numbers: the offset along z, the offset
/// along x, and the twist angle about x.
pub struct LinkVal {
    pub d: int,
    pub r: int,
    pub alpha: AngleVal,
}

/// The wires of the constants of one link.
#[derive(Clone, Copy)]
pub struct Link {
    pub d: Wire,
    pub r: Wire,
    pub alpha: Angle,
}

impl Link {
    /// The constants carried when the inputs read `env`.
    pub open spec fn val(self, env: Seq<int>) -> LinkVal {
        LinkVal { d: self.d.val(env), r: self.r.val(env), alpha: self.alpha.val(env) }
    }

    /// All five wires are wires of `p`.
    pub open spec fn within(self, p: &Program) -> bool {
        p.holds(self.d) && p.holds(self.r) && self.alpha.within(p)
    }
}

/// The home configuration: the pose of the end effector with every joint
/// at zero.
pub open spec fn home_pose(g: Lengths) -> Pose {
    Pose {
        rot: m3(v3(-1, 0, 0), v3(0, 0, 1), v3(0, 1, 0)),
        pos: v3(g.l1 + g.l2, g.w1 + g.w2, g.h1 - g.h2),
    }
}

/// The screw axis of joint `i` in the base frame, joints counted from zero.
pub open spec fn home_axis(g: Lengths, i: int) -> V6 {
    if i == 0 {
        V6 { head: v3(0, 0, 1), tail: v3(0, 0, 0) }
    } else if i == 1 {
        V6 { head: v3(0, 1, 0), tail: v3(-g.h1, 0, 0) }
    } else if i == 2 {
        V6 { head: v3(0, 1, 0), tail: v3(-g.h1, 0, g.l1) }
    } else if i == 3 {
        V6 { head: v3(0, 1, 0), tail: v3(-g.h1, 0, g.l1 + g.l2) }
    } else if i == 4 {
        V6 { head: v3(0, 0, -1), tail: v3(-g.w1, g.l1 + g.l2, 0) }
    } else {
        V6 { head: v3(0, 1, 0), tail: v3(g.h2 - g.h1, 0, g.l1 + g.l2) }
    }
}

/// The screw axes of the six joints in the base frame, first joint first.
pub open spec fn home_axes(g: Lengths) -> Seq<V6> {
    Seq::new(6, |i: int| home_axis(g, i))
}

/// A screw axis of a revolute joint: a unit axis of rotation, with no
/// motion along it.
pub open spec fn revolute(s: V6) -> bool {
    dot(s.head, s.head) == 1 && dot(s.head, s.tail) == 0
}

/// The axes carried by a list of wire vectors when the inputs read `env`.
pub open spec fn axes_at(screw: Seq<Vec6>, env: Seq<int>) -> Seq<V6> {
    Seq::new(screw.len(), |i: int| screw[i].val(env))
}

/// The angles carried by a list of wire angles when the inputs read `env`.
pub open spec fn angles_at(theta: Seq<Angle>, env: Seq<int>) -> Seq<AngleVal> {
    Seq::new(theta.len(), |i: int| theta[i].val(env))
}

/// The link constants carried by a list of wire links when the inputs read
/// `env`.
pub open spec fn links_at(links: Seq<Link>, env: Seq<int>) -> Seq<LinkVal> {
    Seq::new(links.len(), |i: int| links[i].val(env))
}

/// The poses carried by a list of wire transforms when the inputs read `env`.
pub open spec fn poses_at(frames: Seq<Transform>, env: Seq<int>) -> Seq<Pose> {
    Seq::new(frames.len(), |i: int| frames[i].val(env))
}

pub open spec fn axes_within(screw: Seq<Vec6>, p: &Program) -> bool {
    forall|i: int| 0 <= i < screw.len() ==> (#[trigger] screw[i]).within(p)
}

pub open spec fn angles_within(theta: Seq<Angle>, p: &Program) -> bool {
    forall|i: int| 0 <= i < theta.len() ==> (#[trigger] theta[i]).within(p)
}

pub open spec fn links_within(links: Seq<Link>, p: &Program) -> bool {
    forall|i: int| 0 <= i < links.len() ==> (#[trigger] links[i]).within(p)
}

pub open spec fn frames_within(frames: Seq<Transform>, p: &Program) -> bool {
    forall|i: int| 0 <= i < frames.len() ==> (#[trigger] frames[i]).within(p)
}

/// The product `exp([S₀]θ₀) · … · exp([Sₙ₋₁]θₙ₋₁)` of the first `n`
/// exponentials.
pub open spec fn exp_product(axes: Seq<V6>, angles: Seq<AngleVal>, n: nat) -> Pose
    decreases n,
{
    if n == 0 {
        pose_identity()
    } else {
        pose_mul(
            exp_product(axes, angles, (n - 1) as nat),
            exp_map(axes[n - 1], angles[n - 1]),
        )
    }
}

/// The pose of the end effector: the product of the first `dof`
/// exponentials, followed by the home configuration.
pub open spec fn forward_pose(axes: Seq<V6>, angles: Seq<AngleVal>, dof: nat, home: Pose) -> Pose {
    pose_mul(exp_product(axes, angles, dof), home)
}

/// A rotation about z by the angle `a`.
pub open spec fn rot_z(a: AngleVal) -> Pose {
    Pose { rot: m3(v3(a.cos, -a.sin, 0), v3(a.sin, a.cos, 0), v3(0, 0, 1)), pos: v3_zero() }
}

/// A rotation about x by the angle `a`.
pub open spec fn rot_x(a: AngleVal) -> Pose {
    Pose { rot: m3(v3(1, 0, 0), v3(0, a.cos, -a.sin), v3(0, a.sin, a.cos)), pos: v3_zero() }
}

/// A translation by `t`.
pub open spec fn shift(t: V3) -> Pose {
    Pose { rot: m3_identity(), pos: t }
}

/// The local transform of one joint: rotate about z by the joint angle,
/// move along z by `d`, move along x by `r`, rotate about x by `alpha`.
pub open spec fn local_pose(a: AngleVal, link: LinkVal) -> Pose {
    pose_mul(
        pose_mul(pose_mul(rot_z(a), shift(v3(0, 0, link.d))), shift(v3(link.r, 0, 0))),
        rot_x(link.alpha),
    )
}

/// The transform of joint `i`: its local transform, then its exponential.
pub open spec fn joint_pose(
    axes: Seq<V6>,
    angles: Seq<AngleVal>,
    links: Seq<LinkVal>,
    i: int,
) -> Pose {
    pose_mul(local_pose(angles[i], links[i]), exp_map(axes[i], angles[i]))
}

/// The accumulated frame after the first `n` joints.
pub open spec fn frame_product(
    axes: Seq<V6>,
    angles: Seq<AngleVal>,
    links: Seq<LinkVal>,
    n: nat,
) -> Pose
    decreases n,
{
    if n == 0 {
        pose_identity()
    } else {
        pose_mul(
            frame_product(axes, angles, links, (n - 1) as nat),
            joint_pose(axes, angles, links, n - 1),
        )
    }
}

/// Column `i` of the spatial Jacobian: the screw axis of joint `i` carried
/// into the frame accumulated up to and including that joint.
pub open spec fn spatial_column(
    axes: Seq<V6>,
    angles: Seq<AngleVal>,
    links: Seq<LinkVal>,
    i: int,
) -> V6 {
    m6_apply(adjoint(frame_product(axes, angles, links, (i + 1) as nat)), axes[i])
}

/// The matrix that folds the position of the end effector into the lower
/// rows: the identity, with a block built from the first row of the
/// cross-product operator of `pos` at the lower left.
pub open spec fn position_coupling(pos: V3) -> M6 {
    let k = skew(pos);
    M6 {
        tl: m3_identity(),
        tr: m3_zero(),
        bl: skew(v3(k.r0.x, k.r0.z, k.r0.y)),
        br: m3_identity(),
    }
}

/// What the host has computed from the Euler angles of the last frame: the
/// cosine and sine of the product `cos(pitch) · cos(yaw)`, the sine and
/// cosine of the yaw, and the sine of the pitch.
pub struct EulerVal {
    pub cos_mix: int,
    pub sin_mix: int,
    pub sin_yaw: int,
    pub cos_yaw: int,
    pub sin_pitch: int,
}

/// The wires of those five numbers.
#[derive(Clone, Copy)]
pub struct EulerTrig {
    pub cos_mix: Wire,
    pub sin_mix: Wire,
    pub sin_yaw: Wire,
    pub cos_yaw: Wire,
    pub sin_pitch: Wire,
}

impl EulerTrig {
    /// The numbers carried when the inputs read `env`.
    pub open spec fn val(self, env: Seq<int>) -> EulerVal {
        EulerVal {
            cos_mix: self.cos_mix.val(env),
            sin_mix: self.sin_mix.val(env),
            sin_yaw: self.sin_yaw.val(env),
            cos_yaw: self.cos_yaw.val(env),
            sin_pitch: self.sin_pitch.val(env),
        }
    }

    /// All five wires are wires of `p`.
    pub open spec fn within(self, p: &Program) -> bool {
        &&& p.holds(self.cos_mix)
        &&& p.holds(self.sin_mix)
        &&& p.holds(self.sin_yaw)
        &&& p.holds(self.cos_yaw)
        &&& p.holds(self.sin_pitch)
    }
}

/// The matrix that turns angular velocity into Euler-angle rates.
pub open spec fn rate_matrix(e: EulerVal) -> M3 {
    m3(v3(e.cos_mix, -e.sin_yaw, 0), v3(e.sin_mix, e.cos_yaw, 0), v3(-e.sin_pitch, 0, 1))
}

/// The identity on the upper rows and the rate matrix on the lower ones.
pub open spec fn rate_block(e: EulerVal) -> M6 {
    M6 { tl: m3_identity(), tr: m3_zero(), bl: m3_zero(), br: rate_matrix(e) }
}

/// The analytic Jacobian of the six-joint arm.
pub open spec fn analytic_jacobian(
    axes: Seq<V6>,
    angles: Seq<AngleVal>,
    links: Seq<LinkVal>,
    e: EulerVal,
) -> M6 {
    m6_mul(rate_block(e), position_coupling(frame_product(axes, angles, links, 6).pos))
}

/// The rotation entries from which the host takes the Euler angles, as
/// numbers: pitch is the arctangent of `pitch_top / √root_square` against
/// `pitch_ref`, yaw the arctangent of `yaw_top / yaw_ref` against `yaw_ref`.
pub struct EulerTermsVal {
    pub pitch_top: int,
    pub root_square: int,
    pub pitch_ref: int,
    pub yaw_top: int,
    pub yaw_ref: int,
}

/// The wires of those rotation entries.
#[derive(Clone, Copy)]
pub struct EulerTerms {
    pub pitch_top: Wire,
    pub root_square: Wire,
    pub pitch_ref: Wire,
    pub yaw_top: Wire,
    pub yaw_ref: Wire,
}

impl EulerTerms {
    /// The numbers carried when the inputs read `env`.
    pub open spec fn val(self, env: Seq<int>) -> EulerTermsVal {
        EulerTermsVal {
            pitch_top: self.pitch_top.val(env),
            root_square: self.root_square.val(env),
            pitch_ref: self.pitch_ref.val(env),
            yaw_top: self.yaw_top.val(env),
            yaw_ref: self.yaw_ref.val(env),
        }
    }

    /// All five wires are wires of `p`.
    pub open spec fn within(self, p: &Program) -> bool {
        &&& p.holds(self.pitch_top)
        &&& p.holds(self.root_square)
        &&& p.holds(self.pitch_ref)
        &&& p.holds(self.yaw_top)
        &&& p.holds(self.yaw_ref)
    }
}

/// The terms of the Euler-angle extraction, from a rotation block.
pub open spec fn euler_terms_of(r: M3) -> EulerTermsVal {
    EulerTermsVal {
        pitch_top: -r.r2.x,
        root_square: r.r2.z * r.r2.z + r.r2.y * r.r2.y,
        pitch_ref: r.r2.z,
        yaw_top: r.r1.x,
        yaw_ref: r.r0.x,
    }
}

/// The Euler angles cannot be taken from these terms: a denominator of the
/// extraction is zero.
pub open spec fn euler_singular(t: EulerTermsVal) -> bool {
    t.root_square == 0 || t.yaw_ref == 0
}

/// Builds the home configuration and the six screw axes of the arm from
/// its six lengths.
pub fn ur5_params(p: &mut Program, lengths: &LinkLengths) -> (r: (Transform, Vec<Vec6>))
    requires
        lengths.within(old(p)),
    ensures
        final(p).extends(old(p)),
        r.0.within(final(p)),
        r.1@.len() == 6,
        axes_within(r.1@, final(p)),
        forall|env: Seq<int>| #[trigger] r.0.val(env) == home_pose(lengths.val(env)),
        forall|env: Seq<int>| #[trigger] axes_at(r.1@, env) == home_axes(lengths.val(env)),
{
    let zero = p.constant(0);
    let one = p.constant(1);
    let minus_one = p.constant(-1);
    let reach = p.add(lengths.l1, lengths.l2);
    let width = p.add(lengths.w1, lengths.w2);
    let height = p.sub(lengths.h1, lengths.h2);
    let initial_position = Transform {
        rot: Mat3 {
            r0: Vec3 { x: minus_one, y: zero, z: zero },
            r1: Vec3 { x: zero, y: zero, z: one },
            r2: Vec3 { x: zero, y: one, z: zero },
        },
        pos: Vec3 { x: reach, y: width, z: height },
    };
    let neg_h1 = p.neg(lengths.h1);
    let neg_w1 = p.neg(lengths.w1);
    let drop = p.sub(lengths.h2, lengths.h1);
    let up = Vec3 { x: zero, y: zero, z: one };
    let side = Vec3 { x: zero, y: one, z: zero };
    let down = Vec3 { x: zero, y: zero, z: minus_one };
    let mut screw: Vec<Vec6> = Vec::new();
    screw.push(Vec6 { head: up, tail: Vec3 { x: zero, y: zero, z: zero } });
    screw.push(Vec6 { head: side, tail: Vec3 { x: neg_h1, y: zero, z: zero } });
    screw.push(Vec6 { head: side, tail: Vec3 { x: neg_h1, y: zero, z: lengths.l1 } });
    screw.push(Vec6 { head: side, tail: Vec3 { x: neg_h1, y: zero, z: reach } });
    screw.push(Vec6 { head: down, tail: Vec3 { x: neg_w1, y: reach, z: zero } });
    screw.push(Vec6 { head: side, tail: Vec3 { x: drop, y: zero, z: reach } });
    proof {
        assert forall|env: Seq<int>| #[trigger] axes_at(screw@, env) == home_axes(lengths.val(env)) by {
            let a = axes_at(screw@, env);
            let b = home_axes(lengths.val(env));
            assert(a.len() == b.len());
            assert forall|i: int| 0 <= i < 6 implies a[i] == b[i] by {
                assert(a[i] == screw@[i].val(env));
            }
            assert(a =~= b);
        }
    }
    (initial_position, screw)
}

/// Builds the pose of the end effector: the product of the exponentials of
/// the first `dof` joints, then the home configuration `m`.
pub fn compute_t(
    p: &mut Program,
    screw: &Vec<Vec6>,
    theta: &[Angle; 6],
    dof: usize,
    m: &Transform,
) -> (t: Transform)
    requires
        dof <= 6,
        dof <= screw@.len(),
        axes_within(screw@, old(p)),
        angles_within(theta@, old(p)),
        m.within(old(p)),
    ensures
        final(p).extends(old(p)),
        t.within(final(p)),
        forall|env: Seq<int>| #[trigger] t.val(env) == forward_pose(
            axes_at(screw@, env),
            angles_at(theta@, env),
            dof as nat,
            m.val(env),
        ),
{
    let mut t = Transform::identity(p);
    let mut i: usize = 0;
    while i < dof
        invariant
            i <= dof <= 6,
            dof <= screw@.len(),
            p.extends(old(p)),
            axes_within(screw@, old(p)),
            angles_within(theta@, old(p)),
            t.within(p),
            forall|env: Seq<int>| #[trigger] t.val(env) == exp_product(
                axes_at(screw@, env),
                angles_at(theta@, env),
                i as nat,
            ),
        decreases dof - i,
    {
        let axis = screw[i];
        let angle = theta[i];
        proof {
            assert(screw@[i as int].within(old(p)));
            assert(theta@[i as int].within(old(p)));
        }
        let e = exponential_map(p, &axis, &angle);
        let next = Transform::compose(p, &t, &e);
        proof {
            assert forall|env: Seq<int>| #[trigger] next.val(env) == exp_product(
                axes_at(screw@, env),
                angles_at(theta@, env),
                (i + 1) as nat,
            ) by {
                assert(axes_at(screw@, env)[i as int] == axis.val(env));
                assert(angles_at(theta@, env)[i as int] == angle.val(env));
                assert(t.val(env) == exp_product(axes_at(screw@, env), angles_at(theta@, env), i as nat));
            }
        }
        t = next;
        i += 1;
    }
    Transform::compose(p, &t, m)
}

/// Builds the difference between the pose at `theta_d` and the pose at
/// `theta_0`.
pub fn compute_e(
    p: &mut Program,
    theta_d: &[Angle; 6],
    theta_0: &[Angle; 6],
    dof: usize,
    initial_position: &Transform,
    screw: &Vec<Vec6>,
) -> (e: ErrorMatrix)
    requires
        dof <= 6,
        dof <= screw@.len(),
        axes_within(screw@, old(p)),
        angles_within(theta_d@, old(p)),
        angles_within(theta_0@, old(p)),
        initial_position.within(old(p)),
    ensures
        final(p).extends(old(p)),
        e.within(final(p)),
        forall|env: Seq<int>| #[trigger] e.val(env) == pose_sub(
            forward_pose(axes_at(screw@, env), angles_at(theta_d@, env), dof as nat, initial_position.val(env)),
            forward_pose(axes_at(screw@, env), angles_at(theta_0@, env), dof as nat, initial_position.val(env)),
        ),
{
    let t_0 = compute_t(p, screw, theta_0, dof, initial_position);
    proof {
        assert forall|i: int| 0 <= i < screw@.len() implies (#[trigger] screw@[i]).within(p) by {
            assert(screw@[i].within(old(p)));
        }
        assert forall|i: int| 0 <= i < theta_d@.len() implies (#[trigger] theta_d@[i]).within(p) by {
            assert(theta_d@[i].within(old(p)));
        }
    }
    let t_d = compute_t(p, screw, theta_d, dof, initial_position);
    Transform::sub(p, &t_d, &t_0)
}

/// Builds the local transform of joint `index` at the joint angle `theta`.
pub fn denavit_transformation(
    p: &mut Program,
    theta: &Angle,
    index: usize,
    links: &[Link; 6],
) -> (g: Transform)
    requires
        index < 6,
        theta.within(old(p)),
        links_within(links@, old(p)),
    ensures
        final(p).extends(old(p)),
        g.within(final(p)),
        forall|env: Seq<int>| #[trigger] g.val(env) == local_pose(theta.val(env), links@[index as int].val(env)),
{
    let link = links[index];
    proof {
        assert(links@[index as int].within(old(p)));
    }
    let zero = p.constant(0);
    let one = p.constant(1);
    let neg_sin = p.neg(theta.sin);
    let neg_sin_alpha = p.neg(link.alpha.sin);
    let unit = Mat3 {
        r0: Vec3 { x: one, y: zero, z: zero },
        r1: Vec3 { x: zero, y: one, z: zero },
        r2: Vec3 { x: zero, y: zero, z: one },
    };
    let origin = Vec3 { x: zero, y: zero, z: zero };
    let r_z = Transform {
        rot: Mat3 {
            r0: Vec3 { x: theta.cos, y: neg_sin, z: zero },
            r1: Vec3 { x: theta.sin, y: theta.cos, z: zero },
            r2: Vec3 { x: zero, y: zero, z: one },
        },
        pos: origin,
    };
    let t_z = Transform { rot: unit, pos: Vec3 { x: zero, y: zero, z: link.d } };
    let t_x = Transform { rot: unit, pos: Vec3 { x: link.r, y: zero, z: zero } };
    let r_x = Transform {
        rot: Mat3 {
            r0: Vec3 { x: one, y: zero, z: zero },
            r1: Vec3 { x: zero, y: link.alpha.cos, z: neg_sin_alpha },
            r2: Vec3 { x: zero, y: link.alpha.sin, z: link.alpha.cos },
        },
        pos: origin,
    };
    let a = Transform::compose(p, &r_z, &t_z);
    let b = Transform::compose(p, &a, &t_x);
    let g = Transform::compose(p, &b, &r_x);
    proof {
        assert forall|env: Seq<int>| #[trigger] g.val(env) == local_pose(
            theta.val(env),
            links@[index as int].val(env),
        ) by {
            assert(r_z.val(env) == rot_z(theta.val(env)));
            assert(t_z.val(env) == shift(v3(0, 0, link.val(env).d)));
            assert(t_x.val(env) == shift(v3(link.val(env).r, 0, 0)));
            assert(r_x.val(env) == rot_x(link.val(env).alpha));
            assert(a.val(env) == pose_mul(r_z.val(env), t_z.val(env)));
            assert(b.val(env) == pose_mul(a.val(env), t_x.val(env)));
        }
    }
    g
}

/// The six joint angles as one vector of six.
pub open spec fn joint_vector(angles: Seq<AngleVal>) -> V6 {
    V6 {
        head: v3(angles[0].theta, angles[1].theta, angles[2].theta),
        tail: v3(angles[3].theta, angles[4].theta, angles[5].theta),
    }
}

/// The next joint estimate: the estimate plus the inverse Jacobian applied
/// to the joint-space difference between target and estimate.
pub open spec fn next_estimate(estimate: V6, target: V6, inverse: M6) -> V6 {
    v6_add(estimate, m6_apply(inverse, v6_sub(target, estimate)))
}

/// Builds the accumulated frames of the first `dof` joints: frame `i` is the
/// product of the joint transforms up to and including joint `i`.
pub fn joint_frames(
    p: &mut Program,
    theta: &[Angle; 6],
    screw: &Vec<Vec6>,
    dof: usize,
    links: &[Link; 6],
) -> (g: Vec<Transform>)
    requires
        dof <= 6,
        dof <= screw@.len(),
        axes_within(screw@, old(p)),
        angles_within(theta@, old(p)),
        links_within(links@, old(p)),
    ensures
        final(p).extends(old(p)),
        g@.len() == dof,
        frames_within(g@, final(p)),
        forall|env: Seq<int>, i: int|
            0 <= i < dof ==> #[trigger] g@[i].val(env) == frame_product(
                axes_at(screw@, env),
                angles_at(theta@, env),
                links_at(links@, env),
                (i + 1) as nat,
            ),
{
    let mut g: Vec<Transform> = Vec::new();
    let mut g_accum = Transform::identity(p);
    let mut i: usize = 0;
    while i < dof
        invariant
            i <= dof <= 6,
            dof <= screw@.len(),
            p.extends(old(p)),
            axes_within(screw@, old(p)),
            angles_within(theta@, old(p)),
            links_within(links@, old(p)),
            g_accum.within(p),
            g@.len() == i,
            frames_within(g@, p),
            forall|env: Seq<int>| #[trigger] g_accum.val(env) == frame_product(
                axes_at(screw@, env),
                angles_at(theta@, env),
                links_at(links@, env),
                i as nat,
            ),
            forall|env: Seq<int>, j: int|
                0 <= j < i ==> #[trigger] g@[j].val(env) == frame_product(
                    axes_at(screw@, env),
                    angles_at(theta@, env),
                    links_at(links@, env),
                    (j + 1) as nat,
                ),
        decreases dof - i,
    {
        let axis = screw[i];
        let angle = theta[i];
        let ghost before = *p;
        let ghost frames_before = g@;
        proof {
            assert(screw@[i as int].within(old(p)));
            assert(theta@[i as int].within(old(p)));
        }
        let g_local = denavit_transformation(p, &angle, i, links);
        let e = exponential_map(p, &axis, &angle);
        let exp_map_local = Transform::compose(p, &g_local, &e);
        let next = Transform::compose(p, &g_accum, &exp_map_local);
        proof {
            assert forall|env: Seq<int>| #[trigger] next.val(env) == frame_product(
                axes_at(screw@, env),
                angles_at(theta@, env),
                links_at(links@, env),
                (i + 1) as nat,
            ) by {
                let axes = axes_at(screw@, env);
                let angles = angles_at(theta@, env);
                let lks = links_at(links@, env);
                assert(axes[i as int] == axis.val(env));
                assert(angles[i as int] == angle.val(env));
                assert(lks[i as int] == links@[i as int].val(env));
                assert(g_accum.val(env) == frame_product(axes, angles, lks, i as nat));
                assert(exp_map_local.val(env) == joint_pose(axes, angles, lks, i as int));
            }
        }
        g_accum = next;
        g.push(g_accum);
        proof {
            assert forall|j: int| 0 <= j < g@.len() implies (#[trigger] g@[j]).within(p) by {
                if j < i {
                    assert(frames_before[j].within(&before));
                }
            }
        }
        i += 1;
    }
    g
}

/// Builds the columns of the spatial Jacobian: the screw axis of each of
/// the first `dof` joints, carried by the adjoint of that joint's frame.
pub fn spatial_jacobian(
    p: &mut Program,
    frames: &Vec<Transform>,
    screw: &Vec<Vec6>,
    dof: usize,
) -> (j_s: Vec<Vec6>)
    requires
        dof <= frames@.len(),
        dof <= screw@.len(),
        frames_within(frames@, old(p)),
        axes_within(screw@, old(p)),
    ensures
        final(p).extends(old(p)),
        j_s@.len() == dof,
        axes_within(j_s@, final(p)),
        forall|env: Seq<int>, i: int|
            0 <= i < dof ==> #[trigger] j_s@[i].val(env) == m6_apply(
                adjoint(frames@[i].val(env)),
                screw@[i].val(env),
            ),
{
    let mut j_s: Vec<Vec6> = Vec::new();
    let mut i: usize = 0;
    while i < dof
        invariant
            i <= dof,
            dof <= frames@.len(),
            dof <= screw@.len(),
            p.extends(old(p)),
            frames_within(frames@, old(p)),
            axes_within(screw@, old(p)),
            j_s@.len() == i,
            axes_within(j_s@, p),
            forall|env: Seq<int>, j: int|
                0 <= j < i ==> #[trigger] j_s@[j].val(env) == m6_apply(
                    adjoint(frames@[j].val(env)),
                    screw@[j].val(env),
                ),
        decreases dof - i,
    {
        let frame = frames[i];
        let axis = screw[i];
        let ghost before = *p;
        let ghost columns_before = j_s@;
        proof {
            assert(frames@[i as int].within(old(p)));
            assert(screw@[i as int].within(old(p)));
        }
        let carry = ad(p, &frame);
        let column = Mat6::apply(p, &carry, &axis);
        j_s.push(column);
        proof {
            assert forall|j: int| 0 <= j < j_s@.len() implies (#[trigger] j_s@[j]).within(p) by {
                if j < i {
                    assert(columns_before[j].within(&before));
                }
            }
        }
        i += 1;
    }
    j_s
}

/// Builds the terms from which the host takes the Euler angles of a
/// rotation block.
pub fn euler_terms(p: &mut Program, rot: &Mat3) -> (t: EulerTerms)
    requires
        rot.within(old(p)),
    ensures
        final(p).extends(old(p)),
        t.within(final(p)),
        forall|env: Seq<int>| #[trigger] t.val(env) == euler_terms_of(rot.val(env)),
{
    let pitch_top = p.neg(rot.r2.x);
    let zz = p.mul(rot.r2.z, rot.r2.z);
    let yy = p.mul(rot.r2.y, rot.r2.y);
    let root_square = p.add(zz, yy);
    let t = EulerTerms {
        pitch_top,
        root_square,
        pitch_ref: rot.r2.z,
        yaw_top: rot.r1.x,
        yaw_ref: rot.r0.x,
    };
    proof {
        assert forall|env: Seq<int>| #[trigger] t.val(env) == euler_terms_of(rot.val(env)) by {
            let r = rot.val(env);
            assert(t.val(env).root_square == r.r2.z * r.r2.z + r.r2.y * r.r2.y);
        }
    }
    t
}

/// What the Jacobian routine hands back.
pub struct Jacobian {
    /// The analytic Jacobian.
    pub matrix: Mat6,
    /// The columns of the spatial Jacobian.
    pub spatial: Vec<Vec6>,
    /// The frame accumulated over all six joints.
    pub frame: Transform,
    /// The terms of the Euler-angle extraction on that frame.
    pub terms: EulerTerms,
}

/// Builds the analytic Jacobian of the six-joint arm at the joint angles
/// `theta`. The host takes the Euler angles from `terms` of the result and
/// supplies their trigonometry on the wires of `euler`.
pub fn compute_jacobian(
    p: &mut Program,
    theta: &[Angle; 6],
    screw: &Vec<Vec6>,
    dof: usize,
    links: &[Link; 6],
    euler: &EulerTrig,
) -> (j: Jacobian)
    requires
        dof == 6,
        dof <= screw@.len(),
        axes_within(screw@, old(p)),
        angles_within(theta@, old(p)),
        links_within(links@, old(p)),
        euler.within(old(p)),
    ensures
        final(p).extends(old(p)),
        j.matrix.within(final(p)),
        j.frame.within(final(p)),
        j.terms.within(final(p)),
        j.spatial@.len() == 6,
        axes_within(j.spatial@, final(p)),
        forall|env: Seq<int>| #[trigger] j.matrix.val(env) == analytic_jacobian(
            axes_at(screw@, env),
            angles_at(theta@, env),
            links_at(links@, env),
            euler.val(env),
        ),
        forall|env: Seq<int>| #[trigger] j.frame.val(env) == frame_product(
            axes_at(screw@, env),
            angles_at(theta@, env),
            links_at(links@, env),
            6,
        ),
        forall|env: Seq<int>| #[trigger] j.terms.val(env) == euler_terms_of(j.frame.val(env).rot),
        forall|env: Seq<int>, i: int|
            0 <= i < 6 ==> #[trigger] j.spatial@[i].val(env) == spatial_column(
                axes_at(screw@, env),
                angles_at(theta@, env),
                links_at(links@, env),
                i,
            ),
{
    let g = joint_frames(p, theta, screw, dof, links);
    let ghost framed = *p;
    proof {
        assert forall|i: int| 0 <= i < screw@.len() implies (#[trigger] screw@[i]).within(p) by {
            assert(screw@[i].within(old(p)));
        }
    }
    let j_s = spatial_jacobian(p, &g, screw, dof);
    let frame = g[5];
    proof {
        assert(g@[5].within(&framed));
        assert forall|env: Seq<int>, i: int| 0 <= i < 6 implies #[trigger] j_s@[i].val(env)
            == spatial_column(
            axes_at(screw@, env),
            angles_at(theta@, env),
            links_at(links@, env),
            i,
        ) by {
            assert(axes_at(screw@, env)[i] == screw@[i].val(env));
            assert(g@[i].val(env) == frame_product(
                axes_at(screw@, env),
                angles_at(theta@, env),
                links_at(links@, env),
                (i + 1) as nat,
            ));
        }
    }
    let p_0_cpo = cross_product_operator(p, &frame.pos);
    let picked = Vec3 { x: p_0_cpo.r0.x, y: p_0_cpo.r0.z, z: p_0_cpo.r0.y };
    let coupling = cross_product_operator(p, &picked);
    let g_tl = Mat3::identity(p);
    let g_tr = Mat3::zero(p);
    let g_br = Mat3::identity(p);
    let j_g = Mat6 { tl: g_tl, tr: g_tr, bl: coupling, br: g_br };
    let terms = euler_terms(p, &frame.rot);
    let zero = p.constant(0);
    let one = p.constant(1);
    let neg_sin_yaw = p.neg(euler.sin_yaw);
    let neg_sin_pitch = p.neg(euler.sin_pitch);
    let b = Mat3 {
        r0: Vec3 { x: euler.cos_mix, y: neg_sin_yaw, z: zero },
        r1: Vec3 { x: euler.sin_mix, y: euler.cos_yaw, z: zero },
        r2: Vec3 { x: neg_sin_pitch, y: zero, z: one },
    };
    let a_tl = Mat3::identity(p);
    let a_tr = Mat3::zero(p);
    let a_bl = Mat3::zero(p);
    let j_a = Mat6 { tl: a_tl, tr: a_tr, bl: a_bl, br: b };
    let matrix = Mat6::mul(p, &j_a, &j_g);
    proof {
        assert forall|env: Seq<int>| #[trigger] matrix.val(env) == analytic_jacobian(
            axes_at(screw@, env),
            angles_at(theta@, env),
            links_at(links@, env),
            euler.val(env),
        ) by {
            assert(frame.val(env) == frame_product(
                axes_at(screw@, env),
                angles_at(theta@, env),
                links_at(links@, env),
                6,
            ));
            assert(p_0_cpo.val(env) == skew(frame.val(env).pos));
            assert(picked.val(env) == v3(
                p_0_cpo.val(env).r0.x,
                p_0_cpo.val(env).r0.z,
                p_0_cpo.val(env).r0.y,
            ));
            assert(j_g.val(env) == position_coupling(frame.val(env).pos));
            assert(b.val(env) == rate_matrix(euler.val(env)));
            assert(j_a.val(env) == rate_block(euler.val(env)));
        }
    }
    Jacobian { matrix, spatial: j_s, frame, terms }
}

/// What one round of the solver hands back.
pub struct Round {
    /// The difference between the pose at the target and the pose at the
    /// estimate.
    pub residual: ErrorMatrix,
    /// The square of the norm of that difference.
    pub residual_square: Wire,
    /// The Jacobian at the estimate.
    pub jacobian: Jacobian,
    /// The next estimate of the six joint angles.
    pub next: Vec6,
}

/// Builds one round of the root finding: the pose difference between the
/// target `theta_d` and the estimate `theta_0`, the analytic Jacobian at
/// the estimate, and the next estimate, which adds to the estimate the
/// matrix on the wires of `inverse` applied to the joint-space difference.
/// The host inverts the Jacobian and supplies the inverse on those wires.
pub fn root_finding(
    p: &mut Program,
    theta_0: &[Angle; 6],
    theta_d: &[Angle; 6],
    dof: usize,
    initial_position: &Transform,
    screw: &Vec<Vec6>,
    links: &[Link; 6],
    euler: &EulerTrig,
    inverse: &Mat6,
) -> (round: Round)
    requires
        dof == 6,
        dof <= screw@.len(),
        axes_within(screw@, old(p)),
        angles_within(theta_0@, old(p)),
        angles_within(theta_d@, old(p)),
        initial_position.within(old(p)),
        links_within(links@, old(p)),
        euler.within(old(p)),
        inverse.within(old(p)),
    ensures
        final(p).extends(old(p)),
        round.residual.within(final(p)),
        final(p).holds(round.residual_square),
        round.jacobian.matrix.within(final(p)),
        round.jacobian.frame.within(final(p)),
        round.jacobian.terms.within(final(p)),
        round.jacobian.spatial@.len() == 6,
        axes_within(round.jacobian.spatial@, final(p)),
        round.next.within(final(p)),
        forall|env: Seq<int>| #[trigger] round.residual.val(env) == pose_sub(
            forward_pose(axes_at(screw@, env), angles_at(theta_d@, env), 6, initial_position.val(env)),
            forward_pose(axes_at(screw@, env), angles_at(theta_0@, env), 6, initial_position.val(env)),
        ),
        forall|env: Seq<int>| #[trigger] round.residual_square.val(env) == gap_norm_squared(
            round.residual.val(env),
        ),
        forall|env: Seq<int>| #[trigger] round.jacobian.matrix.val(env) == analytic_jacobian(
            axes_at(screw@, env),
            angles_at(theta_0@, env),
            links_at(links@, env),
            euler.val(env),
        ),
        forall|env: Seq<int>| #[trigger] round.jacobian.frame.val(env) == frame_product(
            axes_at(screw@, env),
            angles_at(theta_0@, env),
            links_at(links@, env),
            6,
        ),
        forall|env: Seq<int>| #[trigger] round.jacobian.terms.val(env) == euler_terms_of(
            round.jacobian.frame.val(env).rot,
        ),
        forall|env: Seq<int>, i: int|
            0 <= i < 6 ==> #[trigger] round.jacobian.spatial@[i].val(env) == spatial_column(
                axes_at(screw@, env),
                angles_at(theta_0@, env),
                links_at(links@, env),
                i,
            ),
        forall|env: Seq<int>| #[trigger] round.next.val(env) == next_estimate(
            joint_vector(angles_at(theta_0@, env)),
            joint_vector(angles_at(theta_d@, env)),
            inverse.val(env),
        ),
{
    let residual = compute_e(p, theta_d, theta_0, dof, initial_position, screw);
    let residual_square = ErrorMatrix::norm_squared(p, &residual);
    proof {
        assert forall|i: int| 0 <= i < screw@.len() implies (#[trigger] screw@[i]).within(p) by {
            assert(screw@[i].within(old(p)));
        }
        assert forall|i: int| 0 <= i < theta_0@.len() implies (#[trigger] theta_0@[i]).within(p) by {
            assert(theta_0@[i].within(old(p)));
        }
        assert forall|i: int| 0 <= i < links@.len() implies (#[trigger] links@[i]).within(p) by {
            assert(links@[i].within(old(p)));
        }
    }
    let jacobian = compute_jacobian(p, theta_0, screw, dof, links, euler);
    let ghost derived = *p;
    let estimate = Vec6 {
        head: Vec3 { x: theta_0[0].theta, y: theta_0[1].theta, z: theta_0[2].theta },
        tail: Vec3 { x: theta_0[3].theta, y: theta_0[4].theta, z: theta_0[5].theta },
    };
    let target = Vec6 {
        head: Vec3 { x: theta_d[0].theta, y: theta_d[1].theta, z: theta_d[2].theta },
        tail: Vec3 { x: theta_d[3].theta, y: theta_d[4].theta, z: theta_d[5].theta },
    };
    proof {
        assert(theta_0@[0].within(old(p)) && theta_0@[1].within(old(p)) && theta_0@[2].within(old(p)));
        assert(theta_0@[3].within(old(p)) && theta_0@[4].within(old(p)) && theta_0@[5].within(old(p)));
        assert(theta_d@[0].within(old(p)) && theta_d@[1].within(old(p)) && theta_d@[2].within(old(p)));
        assert(theta_d@[3].within(old(p)) && theta_d@[4].within(old(p)) && theta_d@[5].within(old(p)));
    }
    let gap = Vec6::sub(p, &target, &estimate);
    let step = Mat6::apply(p, inverse, &gap);
    let next = Vec6::add(p, &estimate, &step);
    proof {
        assert forall|env: Seq<int>| #[trigger] next.val(env) == next_estimate(
            joint_vector(angles_at(theta_0@, env)),
            joint_vector(angles_at(theta_d@, env)),
            inverse.val(env),
        ) by {
            let a0 = angles_at(theta_0@, env);
            let ad = angles_at(theta_d@, env);
            assert(a0[0] == theta_0@[0].val(env) && a0[1] == theta_0@[1].val(env) && a0[2] == theta_0@[2].val(env));
            assert(a0[3] == theta_0@[3].val(env) && a0[4] == theta_0@[4].val(env) && a0[5] == theta_0@[5].val(env));
            assert(ad[0] == theta_d@[0].val(env) && ad[1] == theta_d@[1].val(env) && ad[2] == theta_d@[2].val(env));
            assert(ad[3] == theta_d@[3].val(env) && ad[4] == theta_d@[4].val(env) && ad[5] == theta_d@[5].val(env));
            assert(estimate.val(env) == joint_vector(a0));
            assert(target.val(env) == joint_vector(ad));
            assert(gap.val(env) == v6_sub(target.val(env), estimate.val(env)));
            assert(step.val(env) == m6_apply(inverse.val(env), gap.val(env)));
        }
        assert forall|i: int| 0 <= i < jacobian.spatial@.len() implies (#[trigger] jacobian.spatial@[i]).within(p) by {
            assert(jacobian.spatial@[i].within(&derived));
        }
    }
    Round { residual, residual_square, jacobian, next }
}

/// The home configuration is a rigid transform, and each of the six screw
/// axes is that of a revolute joint, whatever the lengths.
pub proof fn lemma_home_is_rigid(g: Lengths)
    ensures
        proper_rotation(home_pose(g).rot),
        home_axes(g).len() == 6,
        forall|i: int| 0 <= i < 6 ==> revolute(#[trigger] home_axes(g)[i]),
{
    let axes = home_axes(g);
    assert forall|i: int| 0 <= i < 6 implies revolute(#[trigger] axes[i]) by {
        let h = axes[i].head;
        let t = axes[i].tail;
        assert(h.x * h.x + h.y * h.y + h.z * h.z == 1 && h.x * t.x + h.y * t.y + h.z * t.z == 0)
            by (nonlinear_arith)
            requires
                (h.x == 0 && h.y == 0 && h.z == 1 && t.z == 0) || (h.x == 0 && h.y == 1 && h.z
                    == 0 && t.y == 0) || (h.x == 0 && h.y == 0 && h.z == -1 && t.z == 0),
        ;
    }
    let r = home_pose(g).rot;
    assert(m3_mul(r, m3_transpose(r)) == m3_identity() && m3_det(r) == 1) by (nonlinear_arith)
        requires
            r == m3(v3(-1, 0, 0), v3(0, 0, 1), v3(0, 1, 0)),
    ;
}

/// With the first `n` joints at angle zero, the product of their
/// exponentials is the identity.
pub proof fn lemma_exp_product_at_zero(axes: Seq<V6>, angles: Seq<AngleVal>, n: nat)
    requires
        forall|i: int| 0 <= i < n ==> angles[i] == AngleVal::zero(),
    ensures
        exp_product(axes, angles, n) == pose_identity(),
    decreases n,
{
    if n > 0 {
        lemma_exp_product_at_zero(axes, angles, (n - 1) as nat);
        crate::math_utils::lemma_exp_zero(axes[n - 1]);
        crate::rigid::lemma_pose_identity(pose_identity());
    }
}

/// With every joint at angle zero, the end effector stands at the home
/// configuration.
pub proof fn lemma_zero_angles_reach_home(
    axes: Seq<V6>,
    angles: Seq<AngleVal>,
    dof: nat,
    home: Pose,
)
    requires
        forall|i: int| 0 <= i < dof ==> angles[i] == AngleVal::zero(),
    ensures
        forward_pose(axes, angles, dof, home) == home,
{
    lemma_exp_product_at_zero(axes, angles, dof);
    crate::rigid::lemma_pose_identity(home);
}

/// A round that starts at its target finds no pose difference and leaves
/// the estimate where it is, whatever stands on the wires of the inverse.
pub proof fn lemma_round_at_target(
    axes: Seq<V6>,
    angles: Seq<AngleVal>,
    dof: nat,
    home: Pose,
    inverse: M6,
)
    ensures
        pose_sub(forward_pose(axes, angles, dof, home), forward_pose(axes, angles, dof, home))
            == gap_zero(),
        gap_norm_squared(
            pose_sub(forward_pose(axes, angles, dof, home), forward_pose(axes, angles, dof, home)),
        ) == 0,
        next_estimate(joint_vector(angles), joint_vector(angles), inverse) == joint_vector(angles),
{
    crate::rigid::lemma_gap_norm(gap_zero());
    let e = joint_vector(angles);
    let gap = v6_sub(e, e);
    assert(gap.head == v3_zero());
    assert(gap.tail == v3_zero());
    assert(m3_apply(inverse.tl, v3_zero()) == v3_zero());
    assert(m3_apply(inverse.tr, v3_zero()) == v3_zero());
    assert(m3_apply(inverse.bl, v3_zero()) == v3_zero());
    assert(m3_apply(inverse.br, v3_zero()) == v3_zero());
}

/// The pose of the end effector is a rigid transform: with unit axes,
/// angles on the unit circle and a rigid home configuration, its rotation
/// block is orthonormal with determinant one.
pub proof fn lemma_forward_pose_rigid(axes: Seq<V6>, angles: Seq<AngleVal>, dof: nat, home: Pose)
    requires
        forall|i: int| 0 <= i < dof ==> dot(#[trigger] axes[i].head, axes[i].head) == 1,
        forall|i: int| 0 <= i < dof ==> (#[trigger] angles[i]).unit(),
        proper_rotation(home.rot),
    ensures
        proper_rotation(forward_pose(axes, angles, dof, home).rot),
{
    lemma_exp_product_rigid(axes, angles, dof);
    crate::rotation::lemma_product_proper(exp_product(axes, angles, dof).rot, home.rot);
}

/// The product of the exponentials of unit axes by angles on the unit
/// circle is a rigid transform.
pub proof fn lemma_exp_product_rigid(axes: Seq<V6>, angles: Seq<AngleVal>, n: nat)
    requires
        forall|i: int| 0 <= i < n ==> dot(#[trigger] axes[i].head, axes[i].head) == 1,
        forall|i: int| 0 <= i < n ==> (#[trigger] angles[i]).unit(),
    ensures
        proper_rotation(exp_product(axes, angles, n).rot),
    decreases n,
{
    if n == 0 {
        crate::rotation::lemma_identity_proper();
    } else {
        lemma_exp_product_rigid(axes, angles, (n - 1) as nat);
        assert(dot(axes[n - 1].head, axes[n - 1].head) == 1);
        assert(angles[n - 1].unit());
        crate::rotation::lemma_rotation_proper(axes[n - 1].head, angles[n - 1]);
        crate::rotation::lemma_product_proper(
            exp_product(axes, angles, (n - 1) as nat).rot,
            exp_map(axes[n - 1], angles[n - 1]).rot,
        );
    }
}

/// The root term of the pitch vanishes exactly where the pitch is a quarter
/// turn either way: in a rigid frame, where the sine of the pitch is one or
/// minus one. There the Euler angles are not defined.
pub proof fn lemma_pitch_quarter_turn(r: M3)
    requires
        proper_rotation(r),
    ensures
        euler_terms_of(r).root_square == 0 <==> (euler_terms_of(r).pitch_top == 1 || euler_terms_of(
            r,
        ).pitch_top == -1),
        euler_terms_of(r).root_square == 0 ==> euler_singular(euler_terms_of(r)),
{
    let x = r.r2.x;
    let y = r.r2.y;
    let z = r.r2.z;
    let rr = m3_mul(r, m3_transpose(r));
    assert(rr.r2.z == dot(r.r2, r.r2));
    assert(x * x + y * y + z * z == 1);
    assert(z * z + y * y == 0 <==> (-x == 1 || -x == -1)) by (nonlinear_arith)
        requires
            x * x + y * y + z * z == 1,
    ;
}

/// The local transform of a joint is rigid when the joint angle and the
/// twist of the link lie on the unit circle.
pub proof fn lemma_local_pose_rigid(a: AngleVal, link: LinkVal)
    requires
        a.unit(),
        link.alpha.unit(),
    ensures
        proper_rotation(local_pose(a, link).rot),
{
    let rz = rot_z(a).rot;
    let rx = rot_x(link.alpha).rot;
    assert(proper_rotation(rz)) by (nonlinear_arith)
        requires
            a.sin * a.sin + a.cos * a.cos == 1,
            rz == m3(v3(a.cos, -a.sin, 0), v3(a.sin, a.cos, 0), v3(0, 0, 1)),
    ;
    assert(proper_rotation(rx)) by (nonlinear_arith)
        requires
            link.alpha.sin * link.alpha.sin + link.alpha.cos * link.alpha.cos == 1,
            rx == m3(v3(1, 0, 0), v3(0, link.alpha.cos, -link.alpha.sin), v3(0, link.alpha.sin, link.alpha.cos)),
    ;
    crate::rotation::lemma_identity_proper();
    crate::rotation::lemma_product_proper(rz, m3_identity());
    let first = m3_mul(rz, m3_identity());
    crate::rotation::lemma_product_proper(first, m3_identity());
    let second = m3_mul(first, m3_identity());
    crate::rotation::lemma_product_proper(second, rx);
}

/// Every accumulated frame is rigid, with unit axes and with joint angles
/// and link twists on the unit circle. So the law of the pitch holds of the
/// frame from which the Jacobian takes its Euler angles.
pub proof fn lemma_frame_product_rigid(
    axes: Seq<V6>,
    angles: Seq<AngleVal>,
    links: Seq<LinkVal>,
    n: nat,
)
    requires
        forall|i: int| 0 <= i < n ==> dot(#[trigger] axes[i].head, axes[i].head) == 1,
        forall|i: int| 0 <= i < n ==> (#[trigger] angles[i]).unit(),
        forall|i: int| 0 <= i < n ==> (#[trigger] links[i]).alpha.unit(),
    ensures
        proper_rotation(frame_product(axes, angles, links, n).rot),
    decreases n,
{
    if n == 0 {
        crate::rotation::lemma_identity_proper();
    } else {
        lemma_frame_product_rigid(axes, angles, links, (n - 1) as nat);
        assert(dot(axes[n - 1].head, axes[n - 1].head) == 1);
        assert(angles[n - 1].unit());
        assert(links[n - 1].alpha.unit());
        lemma_local_pose_rigid(angles[n - 1], links[n - 1]);
        crate::rotation::lemma_rotation_proper(axes[n - 1].head, angles[n - 1]);
        crate::rotation::lemma_product_proper(
            local_pose(angles[n - 1], links[n - 1]).rot,
            exp_map(axes[n - 1], angles[n - 1]).rot,
        );
        crate::rotation::lemma_product_proper(
            frame_product(axes, angles, links, (n - 1) as nat).rot,
            joint_pose(axes, angles, links, n - 1).rot,
        );
    }
}

} // verus!
