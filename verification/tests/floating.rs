//! Runs of the programs on floating-point numbers, as a host makes them.
use nalgebra::{Matrix3, Matrix4, Matrix6};
use screw_kinematics::kinematics::{
    compute_t, root_finding, ur5_params, EulerTrig, Link, LinkLengths, Round,
};
use screw_kinematics::linalg::{Mat3, Mat6, Vec3, Vec6};
use screw_kinematics::math_utils::exponential_map;
use screw_kinematics::program::{Op, Program, Wire};
use screw_kinematics::rigid::{Angle, Transform};
use screw_kinematics::solver::{Outcome, Phase, SolveError, Solver};
use std::f64::consts::PI;

/// Runs every instruction in order on floating-point inputs.
fn run(p: &Program, env: &[f64]) -> Vec<f64> {
    let mut values: Vec<f64> = Vec::with_capacity(p.len());
    for i in 0..p.len() {
        let v = match p.op(i) {
            Op::Input(k) => env.get(k).copied().unwrap_or(0.0),
            Op::Const(c) => c as f64,
            Op::Neg(a) => -values[a],
            Op::Add(a, b) => values[a] + values[b],
            Op::Sub(a, b) => values[a] - values[b],
            Op::Mul(a, b) => values[a] * values[b],
        };
        values.push(v);
    }
    values
}

fn at(values: &[f64], w: Wire) -> f64 {
    values[w.index()]
}

fn inputs3(p: &mut Program, slot: usize) -> Vec3 {
    Vec3 { x: p.input(slot), y: p.input(slot + 1), z: p.input(slot + 2) }
}

fn matrix3(values: &[f64], m: &Mat3) -> Matrix3<f64> {
    Matrix3::new(
        at(values, m.r0.x),
        at(values, m.r0.y),
        at(values, m.r0.z),
        at(values, m.r1.x),
        at(values, m.r1.y),
        at(values, m.r1.z),
        at(values, m.r2.x),
        at(values, m.r2.y),
        at(values, m.r2.z),
    )
}

fn matrix4(values: &[f64], t: &Transform) -> Matrix4<f64> {
    let r = matrix3(values, &t.rot);
    Matrix4::new(
        r[(0, 0)],
        r[(0, 1)],
        r[(0, 2)],
        at(values, t.pos.x),
        r[(1, 0)],
        r[(1, 1)],
        r[(1, 2)],
        at(values, t.pos.y),
        r[(2, 0)],
        r[(2, 1)],
        r[(2, 2)],
        at(values, t.pos.z),
        0.0,
        0.0,
        0.0,
        1.0,
    )
}

fn matrix6(values: &[f64], m: &Mat6) -> Matrix6<f64> {
    let blocks = [
        [matrix3(values, &m.tl), matrix3(values, &m.tr)],
        [matrix3(values, &m.bl), matrix3(values, &m.br)],
    ];
    Matrix6::from_fn(|i, j| blocks[i / 3][j / 3][(i % 3, j % 3)])
}

fn vector6(values: &[f64], v: &Vec6) -> [f64; 6] {
    [
        at(values, v.head.x),
        at(values, v.head.y),
        at(values, v.head.z),
        at(values, v.tail.x),
        at(values, v.tail.y),
        at(values, v.tail.z),
    ]
}

fn angle_values(theta: f64) -> [f64; 3] {
    [theta, theta.sin(), theta.cos()]
}

const LENGTHS: [f64; 6] = [0.5, 0.45, 0.18, 0.1, 0.15, 0.09];
const LINK_D: [f64; 6] = [0.1, 0.0, 0.0, 0.12, 0.1, 0.06];
const LINK_R: [f64; 6] = [0.0, -0.5, -0.45, 0.0, 0.0, 0.0];
const LINK_ALPHA: [f64; 6] = [PI / 2.0, 0.0, 0.0, PI / 2.0, -PI / 2.0, 0.0];

fn lengths(p: &mut Program) -> LinkLengths {
    LinkLengths {
        l1: p.input(0),
        l2: p.input(1),
        h1: p.input(2),
        h2: p.input(3),
        w1: p.input(4),
        w2: p.input(5),
    }
}

fn angles(p: &mut Program, slot: usize) -> [Angle; 6] {
    [
        Angle::inputs(p, slot),
        Angle::inputs(p, slot + 3),
        Angle::inputs(p, slot + 6),
        Angle::inputs(p, slot + 9),
        Angle::inputs(p, slot + 12),
        Angle::inputs(p, slot + 15),
    ]
}

fn link(p: &mut Program, slot: usize) -> Link {
    Link { d: p.input(slot), r: p.input(slot + 1), alpha: Angle::inputs(p, slot + 2) }
}

#[test]
fn exponential_of_a_unit_axis_has_an_orthonormal_rotation_of_determinant_one() {
    let mut p = Program::new();
    let axis = Vec6 { head: inputs3(&mut p, 0), tail: inputs3(&mut p, 3) };
    let angle = Angle::inputs(&mut p, 6);
    let e = exponential_map(&mut p, &axis, &angle);
    for theta in [-3.0, -0.7, 0.0, 0.3, 1.0, PI / 2.0, 2.5] {
        let mut env = vec![1.0 / 3.0, 2.0 / 3.0, -2.0 / 3.0, 0.3, -0.1, 0.8];
        env.extend(angle_values(theta));
        let values = run(&p, &env);
        let r = matrix3(&values, &e.rot);
        assert!((r * r.transpose() - Matrix3::identity()).norm() < 1e-12);
        assert!((r.determinant() - 1.0).abs() < 1e-12);
    }
}

#[test]
fn exponential_by_an_angle_and_back_is_the_identity() {
    let mut p = Program::new();
    let axis = Vec6 { head: inputs3(&mut p, 0), tail: inputs3(&mut p, 3) };
    let forth = Angle::inputs(&mut p, 6);
    let back = Angle::inputs(&mut p, 9);
    let e = exponential_map(&mut p, &axis, &forth);
    let f = exponential_map(&mut p, &axis, &back);
    let both = Transform::compose(&mut p, &e, &f);
    for theta in [-2.0, 0.4, 1.3, PI] {
        let mut env = vec![2.0 / 7.0, 3.0 / 7.0, 6.0 / 7.0, 0.5, 0.25, -1.5];
        env.extend(angle_values(theta));
        env.extend(angle_values(-theta));
        let values = run(&p, &env);
        assert!((matrix4(&values, &both) - Matrix4::identity()).norm() < 1e-12);
        assert!((matrix4(&values, &e) - Matrix4::identity()).norm() > 0.1);
    }
}

#[test]
fn forward_kinematics_at_zero_is_the_home_configuration() {
    let mut p = Program::new();
    let g = lengths(&mut p);
    let (home, screw) = ur5_params(&mut p, &g);
    let theta = angles(&mut p, 6);
    let t = compute_t(&mut p, &screw, &theta, 6, &home);
    let mut env = LENGTHS.to_vec();
    for _ in 0..6 {
        env.extend(angle_values(0.0));
    }
    let values = run(&p, &env);
    let expected = Matrix4::new(
        -1.0,
        0.0,
        0.0,
        0.5 + 0.45,
        0.0,
        0.0,
        1.0,
        0.15 + 0.09,
        0.0,
        1.0,
        0.0,
        0.18 - 0.1,
        0.0,
        0.0,
        0.0,
        1.0,
    );
    assert_eq!(matrix4(&values, &t), expected);
    assert_eq!(matrix4(&values, &home), expected);
}

struct Host {
    program: Program,
    round: Round,
}

/// Slots: lengths 0..6, estimate 6..24, target 24..42, links 42..72, Euler
/// trigonometry 72..77, inverse 77..113.
fn host() -> Host {
    let mut p = Program::new();
    let g = lengths(&mut p);
    let (home, screw) = ur5_params(&mut p, &g);
    let theta = angles(&mut p, 6);
    let target = angles(&mut p, 24);
    let table = [
        link(&mut p, 42),
        link(&mut p, 47),
        link(&mut p, 52),
        link(&mut p, 57),
        link(&mut p, 62),
        link(&mut p, 67),
    ];
    let euler = EulerTrig {
        cos_mix: p.input(72),
        sin_mix: p.input(73),
        sin_yaw: p.input(74),
        cos_yaw: p.input(75),
        sin_pitch: p.input(76),
    };
    let inverse = Mat6 {
        tl: Mat3 { r0: inputs3(&mut p, 77), r1: inputs3(&mut p, 80), r2: inputs3(&mut p, 83) },
        tr: Mat3 { r0: inputs3(&mut p, 86), r1: inputs3(&mut p, 89), r2: inputs3(&mut p, 92) },
        bl: Mat3 { r0: inputs3(&mut p, 95), r1: inputs3(&mut p, 98), r2: inputs3(&mut p, 101) },
        br: Mat3 { r0: inputs3(&mut p, 104), r1: inputs3(&mut p, 107), r2: inputs3(&mut p, 110) },
    };
    let round =
        root_finding(&mut p, &theta, &target, 6, &home, &screw, &table, &euler, &inverse);
    Host { program: p, round }
}

fn host_env(estimate: &[f64; 6], target: &[f64; 6]) -> Vec<f64> {
    let mut env = LENGTHS.to_vec();
    for t in estimate.iter().chain(target.iter()) {
        env.extend(angle_values(*t));
    }
    for i in 0..6 {
        env.push(LINK_D[i]);
        env.push(LINK_R[i]);
        env.extend(angle_values(LINK_ALPHA[i]));
    }
    env.resize(113, 0.0);
    env
}

struct Solution {
    phase: Phase,
    steps: usize,
    theta: [f64; 6],
    residual: f64,
}

fn solve(theta_0: [f64; 6], theta_d: [f64; 6], try_max: usize) -> Solution {
    let h = host();
    let tol = 0.0001;
    let mut solver = Solver::new(try_max);
    let mut theta = theta_0;
    loop {
        let mut env = host_env(&theta, &theta_d);
        let values = run(&h.program, &env);
        let gap = matrix3(&values, &h.round.residual.rot);
        let shift = [
            at(&values, h.round.residual.pos.x),
            at(&values, h.round.residual.pos.y),
            at(&values, h.round.residual.pos.z),
        ];
        let e = Matrix4::from_fn(|i, j| {
            if i == 3 {
                0.0
            } else if j == 3 {
                shift[i]
            } else {
                gap[(i, j)]
            }
        });
        let residual = at(&values, h.round.residual_square).sqrt();
        assert!((residual - e.norm()).abs() <= 1e-12 * (1.0 + residual));
        if !solver.observe(residual <= tol) {
            return Solution { phase: solver.phase(), steps: solver.steps(), theta, residual };
        }
        let terms = h.round.jacobian.terms;
        let root_square = at(&values, terms.root_square);
        let yaw_ref = at(&values, terms.yaw_ref);
        let pitch =
            (at(&values, terms.pitch_top) / root_square.sqrt()).atan2(at(&values, terms.pitch_ref));
        let yaw = (at(&values, terms.yaw_top) / yaw_ref).atan2(yaw_ref);
        let representation_singular =
            root_square == 0.0 || yaw_ref == 0.0 || !pitch.is_finite() || !yaw.is_finite();
        let mut inverse = None;
        if !representation_singular {
            let mix = pitch.cos() * yaw.cos();
            env[72..77].copy_from_slice(&[mix.cos(), mix.sin(), yaw.sin(), yaw.cos(), pitch.sin()]);
            let values = run(&h.program, &env);
            inverse = matrix6(&values, &h.round.jacobian.matrix).try_inverse();
        }
        let outcome = Outcome::classify(representation_singular, inverse.is_some());
        if let Some(inv) = inverse {
            for (slot, wire) in inverse_slots().iter().enumerate() {
                env[77 + slot] = inv[*wire];
            }
            let values = run(&h.program, &env);
            theta = vector6(&values, &h.round.next);
        }
        solver.advance(outcome);
    }
}

/// Row and column of the inverse that each of its 36 slots holds: the
/// wires are laid out block by block.
fn inverse_slots() -> Vec<(usize, usize)> {
    let mut out = Vec::new();
    for (rows, cols) in [(0, 0), (0, 3), (3, 0), (3, 3)] {
        for i in 0..3 {
            for j in 0..3 {
                out.push((rows + i, cols + j));
            }
        }
    }
    out
}

#[test]
fn solve_that_starts_at_its_target_converges_in_one_step() {
    let theta = [0.3, -1.1, 0.7, 0.2, 1.4, -0.5];
    let s = solve(theta, theta, 20);
    assert_eq!(s.phase, Phase::Converged);
    assert_eq!(s.steps, 1);
    assert_eq!(s.residual, 0.0);
    assert_eq!(s.theta, theta);
}

#[test]
fn solve_from_zero_ends_within_twenty_steps() {
    let theta_0 = [0.0; 6];
    let theta_d = [0.0, -PI / 2.0, 0.0, 0.0, PI / 2.0, 0.0];
    let s = solve(theta_0, theta_d, 20);
    println!("steps {} residual {} theta {:?}", s.steps, s.residual, s.theta);
    assert!(matches!(s.phase, Phase::Converged | Phase::IterationLimitReached));
    assert!(s.steps <= 20);
    assert!(s.residual.is_finite());
    if s.phase == Phase::Converged {
        assert!(s.residual <= 0.0001);
    } else {
        assert_eq!(s.steps, 20);
        assert!(s.residual > 0.0001);
    }
}

#[test]
fn solve_reports_a_jacobian_without_inverse() {
    let h = host();
    let mut env = host_env(&[0.0; 6], &[0.1; 6]);
    // a rate matrix with a zero row makes the Jacobian singular
    env[72..77].copy_from_slice(&[0.0, 1.0, 0.0, 1.0, 0.0]);
    let values = run(&h.program, &env);
    let j = matrix6(&values, &h.round.jacobian.matrix);
    let inverse = j.try_inverse();
    assert!(inverse.is_none());
    let mut solver = Solver::new(20);
    assert!(solver.observe(false));
    solver.advance(Outcome::classify(false, inverse.is_some()));
    assert_eq!(solver.phase(), Phase::Failed(SolveError::SingularJacobian));
}

#[test]
fn jacobian_times_its_inverse_moves_the_estimate_onto_the_target() {
    let h = host();
    let theta = [0.1, 0.2, -0.3, 0.4, -0.5, 0.6];
    let target = [0.0, -0.4, 0.1, 0.9, 0.3, -0.2];
    let mut env = host_env(&theta, &target);
    // with the identity on the wires of the inverse the update is the
    // joint-space difference itself
    for (slot, (i, j)) in inverse_slots().iter().enumerate() {
        env[77 + slot] = if i == j { 1.0 } else { 0.0 };
    }
    let values = run(&h.program, &env);
    let next = vector6(&values, &h.round.next);
    for i in 0..6 {
        assert!((next[i] - target[i]).abs() < 1e-15);
    }
}
