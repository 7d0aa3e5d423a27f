//! Runs of the programs on machine integers, where every result is exact.
use screw_kinematics::kinematics::{
    compute_e, compute_jacobian, compute_t, denavit_transformation, euler_terms, joint_frames,
    root_finding, spatial_jacobian, ur5_params, EulerTrig, Link, LinkLengths,
};
use screw_kinematics::linalg::{Mat3, Mat6, Vec3, Vec6};
use screw_kinematics::math_utils::{
    ad, cross_product_operator, exponential_form_rotation, exponential_form_translation,
    exponential_map,
};
use screw_kinematics::program::{Op, Program, Wire};
use screw_kinematics::rigid::{Angle, Transform};
use screw_kinematics::solver::{Outcome, Phase, SolveError, Solver};

type M4 = [[i64; 4]; 4];

fn inputs3(p: &mut Program, slot: usize) -> Vec3 {
    Vec3 { x: p.input(slot), y: p.input(slot + 1), z: p.input(slot + 2) }
}

fn at(values: &[i64], w: Wire) -> i64 {
    values[w.index()]
}

fn vec3(values: &[i64], v: &Vec3) -> [i64; 3] {
    [at(values, v.x), at(values, v.y), at(values, v.z)]
}

fn mat3(values: &[i64], m: &Mat3) -> [[i64; 3]; 3] {
    [vec3(values, &m.r0), vec3(values, &m.r1), vec3(values, &m.r2)]
}

fn vec6(values: &[i64], v: &Vec6) -> [i64; 6] {
    let h = vec3(values, &v.head);
    let t = vec3(values, &v.tail);
    [h[0], h[1], h[2], t[0], t[1], t[2]]
}

fn mat6(values: &[i64], m: &Mat6) -> [[i64; 6]; 6] {
    let tl = mat3(values, &m.tl);
    let tr = mat3(values, &m.tr);
    let bl = mat3(values, &m.bl);
    let br = mat3(values, &m.br);
    let mut out = [[0i64; 6]; 6];
    for i in 0..3 {
        for j in 0..3 {
            out[i][j] = tl[i][j];
            out[i][j + 3] = tr[i][j];
            out[i + 3][j] = bl[i][j];
            out[i + 3][j + 3] = br[i][j];
        }
    }
    out
}

fn mat4(values: &[i64], t: &Transform) -> M4 {
    let r = mat3(values, &t.rot);
    let p = vec3(values, &t.pos);
    [
        [r[0][0], r[0][1], r[0][2], p[0]],
        [r[1][0], r[1][1], r[1][2], p[1]],
        [r[2][0], r[2][1], r[2][2], p[2]],
        [0, 0, 0, 1],
    ]
}

fn mul4(a: &M4, b: &M4) -> M4 {
    let mut out = [[0i64; 4]; 4];
    for i in 0..4 {
        for j in 0..4 {
            for k in 0..4 {
                out[i][j] += a[i][k] * b[k][j];
            }
        }
    }
    out
}

const IDENTITY4: M4 = [[1, 0, 0, 0], [0, 1, 0, 0], [0, 0, 1, 0], [0, 0, 0, 1]];
const IDENTITY6: [[i64; 6]; 6] = [
    [1, 0, 0, 0, 0, 0],
    [0, 1, 0, 0, 0, 0],
    [0, 0, 1, 0, 0, 0],
    [0, 0, 0, 1, 0, 0],
    [0, 0, 0, 0, 1, 0],
    [0, 0, 0, 0, 0, 1],
];

/// The lengths of the arm in millimetres, on slots 0 to 5.
const LENGTHS: [i64; 6] = [500, 450, 180, 100, 150, 90];

/// The link constants in millimetres: offset along z, offset along x, and
/// the twist as angle (unused by the formulas), sine and cosine.
const LINKS: [[i64; 5]; 6] = [
    [100, 0, 0, 1, 0],
    [0, -500, 0, 0, 1],
    [0, -450, 0, 0, 1],
    [120, 0, 0, 1, 0],
    [100, 0, 0, -1, 0],
    [60, 0, 0, 0, 1],
];

fn lengths(p: &mut Program) -> LinkLengths {
    LinkLengths {
        l1: p.input(0),
        l2: p.input(1),
        h1: p.input(2),
        h2: p.input(3),
        w1: p.input(4),
        w2: p.input(5),
    }
}

fn angles(p: &mut Program, slot: usize) -> [Angle; 6] {
    [
        Angle::inputs(p, slot),
        Angle::inputs(p, slot + 3),
        Angle::inputs(p, slot + 6),
        Angle::inputs(p, slot + 9),
        Angle::inputs(p, slot + 12),
        Angle::inputs(p, slot + 15),
    ]
}

fn link(p: &mut Program, slot: usize) -> Link {
    Link { d: p.input(slot), r: p.input(slot + 1), alpha: Angle::inputs(p, slot + 2) }
}

fn links(p: &mut Program, slot: usize) -> [Link; 6] {
    [
        link(p, slot),
        link(p, slot + 5),
        link(p, slot + 10),
        link(p, slot + 15),
        link(p, slot + 20),
        link(p, slot + 25),
    ]
}

fn zero_angles() -> Vec<i64> {
    let mut v = Vec::new();
    for _ in 0..6 {
        v.extend_from_slice(&[0, 0, 1]);
    }
    v
}

fn link_values() -> Vec<i64> {
    LINKS.iter().flat_map(|l| l.iter().copied()).collect()
}

#[test]
fn program_records_instructions_in_order() {
    let mut p = Program::new();
    assert_eq!(p.len(), 0);
    let a = p.input(4);
    let b = p.constant(-7);
    let c = p.add(a, b);
    let d = p.mul(c, a);
    let e = p.sub(d, b);
    let f = p.neg(e);
    assert_eq!((a.index(), b.index(), c.index()), (0, 1, 2));
    assert_eq!((d.index(), e.index(), f.index()), (3, 4, 5));
    assert_eq!(p.len(), 6);
    assert_eq!(p.op(0), Op::Input(4));
    assert_eq!(p.op(1), Op::Const(-7));
    assert_eq!(p.op(2), Op::Add(0, 1));
    assert_eq!(p.op(3), Op::Mul(2, 0));
    assert_eq!(p.op(4), Op::Sub(3, 1));
    assert_eq!(p.op(5), Op::Neg(4));
}

#[test]
fn evaluate_runs_every_instruction() {
    let mut p = Program::new();
    let a = p.input(4);
    let b = p.constant(-7);
    let c = p.add(a, b);
    let d = p.mul(c, a);
    let e = p.sub(d, b);
    let _ = p.neg(e);
    let values = p.evaluate(&vec![0, 0, 0, 0, 10]).unwrap();
    assert_eq!(values, vec![10, -7, 3, 30, 37, -37]);
}

#[test]
fn evaluate_reads_zero_on_a_missing_input() {
    let mut p = Program::new();
    let a = p.input(3);
    let one = p.constant(1);
    let _ = p.add(a, one);
    assert_eq!(p.evaluate(&vec![5, 6]).unwrap(), vec![0, 1, 1]);
}

#[test]
fn evaluate_gives_nothing_when_a_result_does_not_fit() {
    let mut p = Program::new();
    let a = p.input(0);
    let b = p.input(1);
    let _ = p.mul(a, b);
    assert_eq!(p.evaluate(&vec![i64::MAX, 2]), None);
    assert_eq!(p.evaluate(&vec![i64::MAX, 1]).unwrap()[2], i64::MAX);
    let mut q = Program::new();
    let m = q.input(0);
    let _ = q.neg(m);
    assert_eq!(q.evaluate(&vec![i64::MIN]), None);
    assert_eq!(q.evaluate(&vec![i64::MIN + 1]).unwrap()[1], i64::MAX);
}

#[test]
fn cross_product_operator_has_the_skew_layout() {
    let mut p = Program::new();
    let v = inputs3(&mut p, 0);
    let k = cross_product_operator(&mut p, &v);
    let values = p.evaluate(&vec![1, 2, 3]).unwrap();
    assert_eq!(mat3(&values, &k), [[0, -3, 2], [3, 0, -1], [-2, 1, 0]]);
}

#[test]
fn cross_product_operator_times_x_is_the_vector_product() {
    let mut p = Program::new();
    let v = inputs3(&mut p, 0);
    let x = inputs3(&mut p, 3);
    let k = cross_product_operator(&mut p, &v);
    let kx = Mat3::apply(&mut p, &k, &x);
    let values = p.evaluate(&vec![1, 2, 3, 4, 5, 6]).unwrap();
    assert_eq!(vec3(&values, &kx), [2 * 6 - 3 * 5, 3 * 4 - 1 * 6, 1 * 5 - 2 * 4]);
    assert_eq!(vec3(&values, &kx), [-3, 6, -3]);
}

#[test]
fn matrix_product_multiplies_rows_by_columns() {
    let mut p = Program::new();
    let a = Mat3 { r0: inputs3(&mut p, 0), r1: inputs3(&mut p, 3), r2: inputs3(&mut p, 6) };
    let b = Mat3 { r0: inputs3(&mut p, 9), r1: inputs3(&mut p, 12), r2: inputs3(&mut p, 15) };
    let c = Mat3::mul(&mut p, &a, &b);
    let values =
        p.evaluate(&vec![1, 2, 3, 4, 5, 6, 7, 8, 9, 9, 8, 7, 6, 5, 4, 3, 2, 1]).unwrap();
    assert_eq!(mat3(&values, &c), [[30, 24, 18], [84, 69, 54], [138, 114, 90]]);
}

#[test]
fn exponential_map_follows_the_two_formulas() {
    let mut p = Program::new();
    let axis = Vec6 { head: inputs3(&mut p, 0), tail: inputs3(&mut p, 3) };
    let angle = Angle::inputs(&mut p, 6);
    let e = exponential_map(&mut p, &axis, &angle);
    // axis about z, linear part (1, 2, 0); theta 3, sine 1, cosine 0
    let values = p.evaluate(&vec![0, 0, 1, 1, 2, 0, 3, 1, 0]).unwrap();
    assert_eq!(
        mat4(&values, &e),
        [[0, -1, 0, -1], [1, 0, 0, 3], [0, 0, 1, 0], [0, 0, 0, 1]]
    );
}

#[test]
fn exponential_form_rotation_is_rodrigues_formula() {
    let mut p = Program::new();
    let w = inputs3(&mut p, 0);
    let angle = Angle::inputs(&mut p, 3);
    let r = exponential_form_rotation(&mut p, &w, &angle);
    // w = (1, 2, 3), sine 2, cosine -4: I + 2 K + 5 K²
    let values = p.evaluate(&vec![1, 2, 3, 0, 2, -4]).unwrap();
    let k = [[0, -3, 2], [3, 0, -1], [-2, 1, 0]];
    let mut expected = [[0i64; 3]; 3];
    for i in 0..3 {
        for j in 0..3 {
            let kk: i64 = (0..3).map(|n| k[i][n] * k[n][j]).sum();
            expected[i][j] = (if i == j { 1 } else { 0 }) + 2 * k[i][j] + 5 * kk;
        }
    }
    assert_eq!(mat3(&values, &r), expected);
    assert_eq!(mat3(&values, &r)[0], [-64, 4, 19]);
}

#[test]
fn exponential_form_translation_applies_the_matrix_to_the_linear_part() {
    let mut p = Program::new();
    let v = inputs3(&mut p, 0);
    let w = inputs3(&mut p, 3);
    let angle = Angle::inputs(&mut p, 6);
    let t = exponential_form_translation(&mut p, &v, &w, &angle);
    // v = (1, 0, 2), w = (0, 0, 1), theta 5, sine 2, cosine 3:
    // G = 5 I - 2 K + 3 K²
    let values = p.evaluate(&vec![1, 0, 2, 0, 0, 1, 5, 2, 3]).unwrap();
    assert_eq!(vec3(&values, &t), [2, -2, 10]);
}

#[test]
fn exponential_by_the_zero_angle_is_the_identity() {
    let mut p = Program::new();
    let axis = Vec6 { head: inputs3(&mut p, 0), tail: inputs3(&mut p, 3) };
    let angle = Angle::inputs(&mut p, 6);
    let e = exponential_map(&mut p, &axis, &angle);
    let values = p.evaluate(&vec![3, -1, 4, 1, -5, 9, 0, 0, 1]).unwrap();
    assert_eq!(mat4(&values, &e), IDENTITY4);
}

#[test]
fn adjoint_of_the_identity_is_the_identity() {
    let mut p = Program::new();
    let t = Transform::identity(&mut p);
    let a = ad(&mut p, &t);
    let values = p.evaluate(&vec![]).unwrap();
    assert_eq!(mat6(&values, &a), IDENTITY6);
}

#[test]
fn adjoint_has_skew_of_translation_times_rotation_at_the_lower_left() {
    let mut p = Program::new();
    let rot = Mat3 { r0: inputs3(&mut p, 0), r1: inputs3(&mut p, 3), r2: inputs3(&mut p, 6) };
    let pos = inputs3(&mut p, 9);
    let a = ad(&mut p, &Transform { rot, pos });
    let values = p.evaluate(&vec![0, -1, 0, 1, 0, 0, 0, 0, 1, 1, 2, 3]).unwrap();
    assert_eq!(
        mat6(&values, &a),
        [
            [0, -1, 0, 0, 0, 0],
            [1, 0, 0, 0, 0, 0],
            [0, 0, 1, 0, 0, 0],
            [-3, 0, 2, 0, -1, 0],
            [0, -3, -1, 1, 0, 0],
            [1, 2, 0, 0, 0, 1],
        ]
    );
}

#[test]
fn ur5_params_gives_home_and_axes() {
    let mut p = Program::new();
    let g = lengths(&mut p);
    let (home, screw) = ur5_params(&mut p, &g);
    let values = p.evaluate(&LENGTHS.to_vec()).unwrap();
    assert_eq!(
        mat4(&values, &home),
        [[-1, 0, 0, 950], [0, 0, 1, 240], [0, 1, 0, 80], [0, 0, 0, 1]]
    );
    assert_eq!(screw.len(), 6);
    let axes: Vec<[i64; 6]> = screw.iter().map(|s| vec6(&values, s)).collect();
    assert_eq!(
        axes,
        vec![
            [0, 0, 1, 0, 0, 0],
            [0, 1, 0, -180, 0, 0],
            [0, 1, 0, -180, 0, 500],
            [0, 1, 0, -180, 0, 950],
            [0, 0, -1, -150, 950, 0],
            [0, 1, 0, -80, 0, 950],
        ]
    );
}

#[test]
fn forward_kinematics_at_zero_angles_is_home() {
    let mut p = Program::new();
    let g = lengths(&mut p);
    let (home, screw) = ur5_params(&mut p, &g);
    let theta = angles(&mut p, 6);
    let t = compute_t(&mut p, &screw, &theta, 6, &home);
    let mut env = LENGTHS.to_vec();
    env.extend(zero_angles());
    let values = p.evaluate(&env).unwrap();
    assert_eq!(mat4(&values, &t), mat4(&values, &home));
    assert_eq!(
        mat4(&values, &t),
        [[-1, 0, 0, 950], [0, 0, 1, 240], [0, 1, 0, 80], [0, 0, 0, 1]]
    );
}

#[test]
fn forward_kinematics_with_no_joint_is_home() {
    let mut p = Program::new();
    let g = lengths(&mut p);
    let (home, screw) = ur5_params(&mut p, &g);
    let theta = angles(&mut p, 6);
    let t = compute_t(&mut p, &screw, &theta, 0, &home);
    let mut env = LENGTHS.to_vec();
    env.extend(vec![7; 18]);
    let values = p.evaluate(&env).unwrap();
    assert_eq!(mat4(&values, &t), mat4(&values, &home));
}

#[test]
fn forward_kinematics_turns_the_first_joint() {
    let mut p = Program::new();
    let g = lengths(&mut p);
    let (home, screw) = ur5_params(&mut p, &g);
    let theta = angles(&mut p, 6);
    let t = compute_t(&mut p, &screw, &theta, 6, &home);
    let mut env = LENGTHS.to_vec();
    env.extend(zero_angles());
    // a quarter turn of the first joint: sine 1, cosine 0
    env[6] = 2;
    env[7] = 1;
    env[8] = 0;
    let values = p.evaluate(&env).unwrap();
    assert_eq!(
        mat4(&values, &t),
        [[0, 0, -1, -240], [-1, 0, 0, 950], [0, 1, 0, 80], [0, 0, 0, 1]]
    );
}

#[test]
fn forward_kinematics_multiplies_the_exponentials_in_joint_order() {
    let mut p = Program::new();
    let g = lengths(&mut p);
    let (home, screw) = ur5_params(&mut p, &g);
    let theta = angles(&mut p, 6);
    let t = compute_t(&mut p, &screw, &theta, 2, &home);
    let e0 = exponential_map(&mut p, &screw[0], &theta[0]);
    let e1 = exponential_map(&mut p, &screw[1], &theta[1]);
    let mut env = LENGTHS.to_vec();
    env.extend(zero_angles());
    env[6..9].copy_from_slice(&[0, 1, 0]);
    env[9..12].copy_from_slice(&[0, -1, 0]);
    let values = p.evaluate(&env).unwrap();
    let expected = mul4(&mul4(&mat4(&values, &e0), &mat4(&values, &e1)), &mat4(&values, &home));
    assert_eq!(mat4(&values, &t), expected);
    let reversed = mul4(&mul4(&mat4(&values, &e1), &mat4(&values, &e0)), &mat4(&values, &home));
    assert_ne!(expected, reversed);
}

#[test]
fn denavit_transformation_chains_the_four_elementary_transforms() {
    let mut p = Program::new();
    let theta = Angle::inputs(&mut p, 0);
    let table = links(&mut p, 3);
    let g0 = denavit_transformation(&mut p, &theta, 0, &table);
    let g1 = denavit_transformation(&mut p, &theta, 1, &table);
    let mut env = vec![0, 0, 1];
    env.extend(link_values());
    let values = p.evaluate(&env).unwrap();
    assert_eq!(
        mat4(&values, &g0),
        [[1, 0, 0, 0], [0, 0, -1, 0], [0, 1, 0, 100], [0, 0, 0, 1]]
    );
    assert_eq!(
        mat4(&values, &g1),
        [[1, 0, 0, -500], [0, 1, 0, 0], [0, 0, 1, 0], [0, 0, 0, 1]]
    );
    // a quarter turn about z carries the offset along x onto y
    env[1] = 1;
    env[2] = 0;
    let values = p.evaluate(&env).unwrap();
    assert_eq!(
        mat4(&values, &g1),
        [[0, -1, 0, 0], [1, 0, 0, -500], [0, 0, 1, 0], [0, 0, 0, 1]]
    );
    let rz: M4 = [[0, -1, 0, 0], [1, 0, 0, 0], [0, 0, 1, 0], [0, 0, 0, 1]];
    let tz: M4 = [[1, 0, 0, 0], [0, 1, 0, 0], [0, 0, 1, 100], [0, 0, 0, 1]];
    let tx: M4 = IDENTITY4;
    let rx: M4 = [[1, 0, 0, 0], [0, 0, -1, 0], [0, 1, 0, 0], [0, 0, 0, 1]];
    assert_eq!(mat4(&values, &g0), mul4(&mul4(&mul4(&rz, &tz), &tx), &rx));
}

struct Arm {
    program: Program,
    home: Transform,
    screw: Vec<Vec6>,
    theta: [Angle; 6],
    target: [Angle; 6],
    table: [Link; 6],
    euler: EulerTrig,
    inverse: Mat6,
}

/// Slots: lengths 0..6, estimate 6..24, target 24..42, links 42..72, Euler
/// trigonometry 72..77, inverse 77..113.
fn arm() -> Arm {
    let mut p = Program::new();
    let g = lengths(&mut p);
    let (home, screw) = ur5_params(&mut p, &g);
    let theta = angles(&mut p, 6);
    let target = angles(&mut p, 24);
    let table = links(&mut p, 42);
    let euler = EulerTrig {
        cos_mix: p.input(72),
        sin_mix: p.input(73),
        sin_yaw: p.input(74),
        cos_yaw: p.input(75),
        sin_pitch: p.input(76),
    };
    let inverse = Mat6 {
        tl: Mat3 { r0: inputs3(&mut p, 77), r1: inputs3(&mut p, 80), r2: inputs3(&mut p, 83) },
        tr: Mat3 { r0: inputs3(&mut p, 86), r1: inputs3(&mut p, 89), r2: inputs3(&mut p, 92) },
        bl: Mat3 { r0: inputs3(&mut p, 95), r1: inputs3(&mut p, 98), r2: inputs3(&mut p, 101) },
        br: Mat3 { r0: inputs3(&mut p, 104), r1: inputs3(&mut p, 107), r2: inputs3(&mut p, 110) },
    };
    Arm { program: p, home, screw, theta, target, table, euler, inverse }
}

fn arm_env(estimate: &[i64], target: &[i64], euler: &[i64; 5], inverse: &[i64]) -> Vec<i64> {
    let mut env = LENGTHS.to_vec();
    env.extend_from_slice(estimate);
    env.extend_from_slice(target);
    env.extend(link_values());
    env.extend_from_slice(euler);
    env.extend_from_slice(inverse);
    assert_eq!(env.len(), 113);
    env
}

#[test]
fn joint_frames_accumulate_local_transform_and_exponential() {
    let mut a = arm();
    let frames = joint_frames(&mut a.program, &a.theta, &a.screw, 6, &a.table);
    assert_eq!(frames.len(), 6);
    let mut locals = Vec::new();
    let mut exps = Vec::new();
    for i in 0..6 {
        locals.push(denavit_transformation(&mut a.program, &a.theta[i], i, &a.table));
        exps.push(exponential_map(&mut a.program, &a.screw[i], &a.theta[i]));
    }
    let mut estimate = zero_angles();
    estimate[3..6].copy_from_slice(&[0, 1, 0]);
    estimate[12..15].copy_from_slice(&[0, -1, 0]);
    let env = arm_env(&estimate, &zero_angles(), &[0; 5], &[0; 36]);
    let values = a.program.evaluate(&env).unwrap();
    let mut acc = IDENTITY4;
    for i in 0..6 {
        let joint = mul4(&mat4(&values, &locals[i]), &mat4(&values, &exps[i]));
        acc = mul4(&acc, &joint);
        assert_eq!(mat4(&values, &frames[i]), acc);
    }
}

#[test]
fn spatial_jacobian_carries_each_axis_by_the_adjoint_of_its_frame() {
    let mut a = arm();
    let frames = joint_frames(&mut a.program, &a.theta, &a.screw, 6, &a.table);
    let columns = spatial_jacobian(&mut a.program, &frames, &a.screw, 6);
    assert_eq!(columns.len(), 6);
    let env = arm_env(&zero_angles(), &zero_angles(), &[0; 5], &[0; 36]);
    let values = a.program.evaluate(&env).unwrap();
    // at zero angles the first frame is the first local transform:
    // rotation about x by a quarter turn, 100 up along z
    assert_eq!(
        mat4(&values, &frames[0]),
        [[1, 0, 0, 0], [0, 0, -1, 0], [0, 1, 0, 100], [0, 0, 0, 1]]
    );
    // R (0,0,1) = (0,-1,0); [p] R (0,0,1) = (0,0,100) x (0,-1,0) = (100,0,0)
    assert_eq!(vec6(&values, &columns[0]), [0, -1, 0, 100, 0, 0]);
    for i in 0..6 {
        let f = mat4(&values, &frames[i]);
        let s = vec6(&values, &a.screw[i]);
        let mut w = [0i64; 3];
        let mut rv = [0i64; 3];
        for r in 0..3 {
            for c in 0..3 {
                w[r] += f[r][c] * s[c];
                rv[r] += f[r][c] * s[c + 3];
            }
        }
        let pos = [f[0][3], f[1][3], f[2][3]];
        let lower = [
            pos[1] * w[2] - pos[2] * w[1] + rv[0],
            pos[2] * w[0] - pos[0] * w[2] + rv[1],
            pos[0] * w[1] - pos[1] * w[0] + rv[2],
        ];
        assert_eq!(vec6(&values, &columns[i]), [w[0], w[1], w[2], lower[0], lower[1], lower[2]]);
    }
}

#[test]
fn jacobian_is_rate_block_times_position_coupling() {
    let mut a = arm();
    let j = compute_jacobian(&mut a.program, &a.theta, &a.screw, 6, &a.table, &a.euler);
    let env = arm_env(&zero_angles(), &zero_angles(), &[2, 3, 5, 7, 11], &[0; 36]);
    let values = a.program.evaluate(&env).unwrap();
    let frame = mat4(&values, &j.frame);
    // at zero angles the frame is the product of the six link transforms
    let mut expected_frame = IDENTITY4;
    for l in LINKS.iter() {
        let (d, r, s, c) = (l[0], l[1], l[3], l[4]);
        let link: M4 = [[1, 0, 0, r], [0, c, -s, 0], [0, s, c, d], [0, 0, 0, 1]];
        expected_frame = mul4(&expected_frame, &link);
    }
    assert_eq!(frame, expected_frame);
    let (py, pz) = (frame[1][3], frame[2][3]);
    let b = [[2, -5, 0], [3, 7, 0], [-11, 0, 1]];
    let x = [[0, pz, py], [-pz, 0, 0], [-py, 0, 0]];
    let mut expected = [[0i64; 6]; 6];
    for i in 0..3 {
        expected[i][i] = 1;
        for c in 0..3 {
            expected[i + 3][c + 3] = b[i][c];
            expected[i + 3][c] = (0..3).map(|n| b[i][n] * x[n][c]).sum();
        }
    }
    assert_eq!(mat6(&values, &j.matrix), expected);
    assert_eq!(j.spatial.len(), 6);
    let terms = [
        at(&values, j.terms.pitch_top),
        at(&values, j.terms.root_square),
        at(&values, j.terms.pitch_ref),
        at(&values, j.terms.yaw_top),
        at(&values, j.terms.yaw_ref),
    ];
    assert_eq!(
        terms,
        [
            -frame[2][0],
            frame[2][2] * frame[2][2] + frame[2][1] * frame[2][1],
            frame[2][2],
            frame[1][0],
            frame[0][0]
        ]
    );
}

#[test]
fn euler_terms_vanish_at_a_pitch_of_a_quarter_turn() {
    let mut p = Program::new();
    let rot = Mat3 { r0: inputs3(&mut p, 0), r1: inputs3(&mut p, 3), r2: inputs3(&mut p, 6) };
    let terms = euler_terms(&mut p, &rot);
    // a quarter turn about y, either way
    for sign in [1, -1] {
        let values = p.evaluate(&vec![0, 0, sign, 0, 1, 0, -sign, 0, 0]).unwrap();
        assert_eq!(at(&values, terms.root_square), 0);
        assert_eq!(at(&values, terms.pitch_top), sign);
        assert_eq!(at(&values, terms.yaw_ref), 0);
        let representation_singular =
            at(&values, terms.root_square) == 0 || at(&values, terms.yaw_ref) == 0;
        let mut solver = Solver::new(20);
        assert!(solver.observe(false));
        solver.advance(Outcome::classify(representation_singular, true));
        assert_eq!(solver.phase(), Phase::Failed(SolveError::RepresentationSingularity));
        assert_eq!(solver.steps(), 1);
    }
}

#[test]
fn compute_e_is_the_difference_of_the_two_poses() {
    let mut a = arm();
    let e = compute_e(&mut a.program, &a.target, &a.theta, 6, &a.home, &a.screw);
    let t_0 = compute_t(&mut a.program, &a.screw, &a.theta, 6, &a.home);
    let t_d = compute_t(&mut a.program, &a.screw, &a.target, 6, &a.home);
    let mut target = zero_angles();
    target[0..3].copy_from_slice(&[0, 1, 0]);
    let env = arm_env(&zero_angles(), &target, &[0; 5], &[0; 36]);
    let values = a.program.evaluate(&env).unwrap();
    let d = mat4(&values, &t_d);
    let z = mat4(&values, &t_0);
    let rot = mat3(&values, &e.rot);
    let pos = vec3(&values, &e.pos);
    for i in 0..3 {
        for j in 0..3 {
            assert_eq!(rot[i][j], d[i][j] - z[i][j]);
        }
        assert_eq!(pos[i], d[i][3] - z[i][3]);
    }
    assert_eq!(pos, [-240 - 950, 950 - 240, 0]);
}

#[test]
fn round_that_starts_at_its_target_has_no_residual_and_stays() {
    let mut a = arm();
    let round = root_finding(
        &mut a.program,
        &a.theta,
        &a.target,
        6,
        &a.home,
        &a.screw,
        &a.table,
        &a.euler,
        &a.inverse,
    );
    let mut both = zero_angles();
    both[3..6].copy_from_slice(&[4, 1, 0]);
    both[12..15].copy_from_slice(&[-3, 0, -1]);
    let inverse: Vec<i64> = (1..=36).collect();
    let env = arm_env(&both, &both, &[1, 2, 3, 4, 5], &inverse);
    let values = a.program.evaluate(&env).unwrap();
    assert_eq!(mat3(&values, &round.residual.rot), [[0; 3]; 3]);
    assert_eq!(vec3(&values, &round.residual.pos), [0; 3]);
    assert_eq!(at(&values, round.residual_square), 0);
    assert_eq!(vec6(&values, &round.next), [0, 4, 0, 0, -3, 0]);
    let mut solver = Solver::new(20);
    assert!(!solver.observe(true));
    assert_eq!(solver.phase(), Phase::Converged);
    assert_eq!(solver.steps(), 1);
}

#[test]
fn round_adds_the_inverse_applied_to_the_joint_difference() {
    let mut a = arm();
    let round = root_finding(
        &mut a.program,
        &a.theta,
        &a.target,
        6,
        &a.home,
        &a.screw,
        &a.table,
        &a.euler,
        &a.inverse,
    );
    let mut estimate = zero_angles();
    let mut target = zero_angles();
    for i in 0..6 {
        estimate[3 * i] = i as i64 + 1;
        target[3 * i] = 10 * (i as i64 + 1);
    }
    let inverse: Vec<i64> = (0..36).map(|n| (n % 7) - 3).collect();
    let env = arm_env(&estimate, &target, &[1, 0, 0, 1, 0], &inverse);
    let values = a.program.evaluate(&env).unwrap();
    // the wires of the inverse are laid out block by block
    let full = mat6(&values, &a.inverse);
    let mut expected = [0i64; 6];
    for i in 0..6 {
        expected[i] = i as i64 + 1;
        for j in 0..6 {
            expected[i] += full[i][j] * 9 * (j as i64 + 1);
        }
    }
    assert_eq!(vec6(&values, &round.next), expected);
    let rot = mat3(&values, &round.residual.rot);
    let pos = vec3(&values, &round.residual.pos);
    let squares: i64 =
        rot.iter().flatten().map(|v| v * v).sum::<i64>() + pos.iter().map(|v| v * v).sum::<i64>();
    assert_eq!(at(&values, round.residual_square), squares);
    assert_eq!(full[0], [-3, -2, -1, -1, 0, 1]);
}

#[test]
fn solver_converges_at_step_one_when_the_first_residual_is_within_tolerance() {
    for cap in [0, 1, 2, 20] {
        let mut solver = Solver::new(cap);
        assert_eq!(solver.phase(), Phase::Iterating);
        assert_eq!(solver.steps(), 1);
        assert!(!solver.observe(true));
        assert_eq!(solver.phase(), Phase::Converged);
        assert_eq!(solver.steps(), 1);
    }
}

#[test]
fn solver_stops_at_the_iteration_limit() {
    let mut solver = Solver::new(20);
    let mut rounds = 0;
    while solver.observe(false) {
        solver.advance(Outcome::Updated);
        rounds += 1;
        assert!(rounds < 100);
    }
    assert_eq!(solver.phase(), Phase::IterationLimitReached);
    assert_eq!(solver.steps(), 20);
    assert_eq!(rounds, 19);
}

#[test]
fn solver_with_no_budget_stops_at_once() {
    for cap in [0, 1] {
        let mut solver = Solver::new(cap);
        assert!(!solver.observe(false));
        assert_eq!(solver.phase(), Phase::IterationLimitReached);
        assert_eq!(solver.steps(), 1);
    }
}

#[test]
fn solver_converges_on_the_last_allowed_step() {
    let mut solver = Solver::new(3);
    assert!(solver.observe(false));
    solver.advance(Outcome::Updated);
    assert!(solver.observe(false));
    solver.advance(Outcome::Updated);
    assert_eq!(solver.steps(), 3);
    assert!(!solver.observe(true));
    assert_eq!(solver.phase(), Phase::Converged);
    assert_eq!(solver.steps(), 3);
}

#[test]
fn solver_reports_a_singular_jacobian() {
    let mut solver = Solver::new(20);
    assert!(solver.observe(false));
    solver.advance(Outcome::Updated);
    assert!(solver.observe(false));
    solver.advance(Outcome::classify(false, false));
    assert_eq!(solver.phase(), Phase::Failed(SolveError::SingularJacobian));
    assert_eq!(solver.steps(), 2);
}

#[test]
fn solver_puts_a_representation_singularity_before_a_missing_inverse() {
    assert_eq!(Outcome::classify(true, false), Outcome::RepresentationSingularity);
    assert_eq!(Outcome::classify(true, true), Outcome::RepresentationSingularity);
    assert_eq!(Outcome::classify(false, false), Outcome::SingularJacobian);
    assert_eq!(Outcome::classify(false, true), Outcome::Updated);
}

#[test]
fn solver_ignores_what_comes_after_the_end() {
    let mut solver = Solver::new(5);
    assert!(solver.observe(false));
    solver.advance(Outcome::SingularJacobian);
    assert!(!solver.observe(true));
    solver.advance(Outcome::Updated);
    assert_eq!(solver.phase(), Phase::Failed(SolveError::SingularJacobian));
    assert_eq!(solver.steps(), 1);
    let mut done = Solver::new(5);
    assert!(!done.observe(true));
    assert!(!done.observe(false));
    done.advance(Outcome::Updated);
    assert_eq!(done.phase(), Phase::Converged);
    assert_eq!(done.steps(), 1);
}

#[test]
fn solver_counts_a_step_only_for_a_granted_update() {
    let mut solver = Solver::new(5);
    solver.advance(Outcome::Updated);
    assert_eq!(solver.steps(), 1);
    assert!(solver.observe(false));
    assert!(!solver.observe(false));
    solver.advance(Outcome::Updated);
    solver.advance(Outcome::Updated);
    assert_eq!(solver.steps(), 2);
    assert_eq!(solver.phase(), Phase::Iterating);
}
