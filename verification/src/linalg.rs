//! Small fixed-size vectors and matrices: the numbers they stand for, and
//! the same shapes made of wires of a program.
use vstd::prelude::*;
use crate::program::{Program, Wire};

verus! {

/// A vector of three numbers.
pub struct V3 {
    pub x: int,
    pub y: int,
    pub z: int,
}

/// A 3×3 matrix, given by its rows.
pub struct M3 {
    pub r0: V3,
    pub r1: V3,
    pub r2: V3,
}

/// A vector of six numbers in two halves. For a screw axis or a twist the
/// head is the angular part and the tail the linear part.
pub struct V6 {
    pub head: V3,
    pub tail: V3,
}

/// A 6×6 matrix in four 3×3 blocks: `tl tr` above `bl br`.
pub struct M6 {
    pub tl: M3,
    pub tr: M3,
    pub bl: M3,
    pub br: M3,
}

pub open spec fn v3(x: int, y: int, z: int) -> V3 {
    V3 { x, y, z }
}

pub open spec fn v3_zero() -> V3 {
    v3(0, 0, 0)
}

pub open spec fn v3_add(a: V3, b: V3) -> V3 {
    v3(a.x + b.x, a.y + b.y, a.z + b.z)
}

pub open spec fn v3_sub(a: V3, b: V3) -> V3 {
    v3(a.x - b.x, a.y - b.y, a.z - b.z)
}

pub open spec fn v3_scale(k: int, a: V3) -> V3 {
    v3(k * a.x, k * a.y, k * a.z)
}

/// The inner product.
pub open spec fn dot(a: V3, b: V3) -> int {
    a.x * b.x + a.y * b.y + a.z * b.z
}

/// The vector product `a × b`.
pub open spec fn cross(a: V3, b: V3) -> V3 {
    v3(a.y * b.z - a.z * b.y, a.z * b.x - a.x * b.z, a.x * b.y - a.y * b.x)
}

pub open spec fn m3(r0: V3, r1: V3, r2: V3) -> M3 {
    M3 { r0, r1, r2 }
}

pub open spec fn m3_zero() -> M3 {
    m3(v3_zero(), v3_zero(), v3_zero())
}

pub open spec fn m3_identity() -> M3 {
    m3(v3(1, 0, 0), v3(0, 1, 0), v3(0, 0, 1))
}

pub open spec fn col0(m: M3) -> V3 {
    v3(m.r0.x, m.r1.x, m.r2.x)
}

pub open spec fn col1(m: M3) -> V3 {
    v3(m.r0.y, m.r1.y, m.r2.y)
}

pub open spec fn col2(m: M3) -> V3 {
    v3(m.r0.z, m.r1.z, m.r2.z)
}

pub open spec fn m3_transpose(m: M3) -> M3 {
    m3(col0(m), col1(m), col2(m))
}

pub open spec fn m3_add(a: M3, b: M3) -> M3 {
    m3(v3_add(a.r0, b.r0), v3_add(a.r1, b.r1), v3_add(a.r2, b.r2))
}

pub open spec fn m3_sub(a: M3, b: M3) -> M3 {
    m3(v3_sub(a.r0, b.r0), v3_sub(a.r1, b.r1), v3_sub(a.r2, b.r2))
}

pub open spec fn m3_scale(k: int, a: M3) -> M3 {
    m3(v3_scale(k, a.r0), v3_scale(k, a.r1), v3_scale(k, a.r2))
}

/// The matrix applied to a column vector.
pub open spec fn m3_apply(m: M3, v: V3) -> V3 {
    v3(dot(m.r0, v), dot(m.r1, v), dot(m.r2, v))
}

/// One row of a matrix product: the row vector `r` times the matrix `b`.
pub open spec fn row_times(r: V3, b: M3) -> V3 {
    v3(dot(r, col0(b)), dot(r, col1(b)), dot(r, col2(b)))
}

/// The matrix product `a · b`.
pub open spec fn m3_mul(a: M3, b: M3) -> M3 {
    m3(row_times(a.r0, b), row_times(a.r1, b), row_times(a.r2, b))
}

/// The determinant, as the triple product of the rows.
pub open spec fn m3_det(m: M3) -> int {
    dot(m.r0, cross(m.r1, m.r2))
}

/// A rotation block is orthonormal with determinant one.
pub open spec fn proper_rotation(r: M3) -> bool {
    m3_mul(r, m3_transpose(r)) == m3_identity() && m3_det(r) == 1
}

pub open spec fn v6_add(a: V6, b: V6) -> V6 {
    V6 { head: v3_add(a.head, b.head), tail: v3_add(a.tail, b.tail) }
}

pub open spec fn v6_sub(a: V6, b: V6) -> V6 {
    V6 { head: v3_sub(a.head, b.head), tail: v3_sub(a.tail, b.tail) }
}

pub open spec fn m6_identity() -> M6 {
    M6 { tl: m3_identity(), tr: m3_zero(), bl: m3_zero(), br: m3_identity() }
}

/// The 6×6 matrix applied to a column vector of six.
pub open spec fn m6_apply(m: M6, v: V6) -> V6 {
    V6 {
        head: v3_add(m3_apply(m.tl, v.head), m3_apply(m.tr, v.tail)),
        tail: v3_add(m3_apply(m.bl, v.head), m3_apply(m.br, v.tail)),
    }
}

/// The product of two 6×6 matrices, block by block.
pub open spec fn m6_mul(a: M6, b: M6) -> M6 {
    M6 {
        tl: m3_add(m3_mul(a.tl, b.tl), m3_mul(a.tr, b.bl)),
        tr: m3_add(m3_mul(a.tl, b.tr), m3_mul(a.tr, b.br)),
        bl: m3_add(m3_mul(a.bl, b.tl), m3_mul(a.br, b.bl)),
        br: m3_add(m3_mul(a.bl, b.tr), m3_mul(a.br, b.br)),
    }
}

/// Three wires that carry a vector.
#[derive(Clone, Copy)]
pub struct Vec3 {
    pub x: Wire,
    pub y: Wire,
    pub z: Wire,
}

/// Nine wires that carry a 3×3 matrix, row by row.
#[derive(Clone, Copy)]
pub struct Mat3 {
    pub r0: Vec3,
    pub r1: Vec3,
    pub r2: Vec3,
}

/// Six wires that carry a vector of six.
#[derive(Clone, Copy)]
pub struct Vec6 {
    pub head: Vec3,
    pub tail: Vec3,
}

/// Thirty-six wires that carry a 6×6 matrix in four blocks.
#[derive(Clone, Copy)]
pub struct Mat6 {
    pub tl: Mat3,
    pub tr: Mat3,
    pub bl: Mat3,
    pub br: Mat3,
}

impl Vec3 {
    /// The vector carried when the inputs read `env`.
    pub open spec fn val(self, env: Seq<int>) -> V3 {
        v3(self.x.val(env), self.y.val(env), self.z.val(env))
    }

    /// All three wires are wires of `p`.
    pub open spec fn within(self, p: &Program) -> bool {
        p.holds(self.x) && p.holds(self.y) && p.holds(self.z)
    }

    /// The zero vector.
    pub fn zero(p: &mut Program) -> (r: Vec3)
        ensures
            final(p).extends(old(p)),
            r.within(final(p)),
            forall|env: Seq<int>| #[trigger] r.val(env) == v3_zero(),
    {
        let x = p.constant(0);
        let y = p.constant(0);
        let z = p.constant(0);
        Vec3 { x, y, z }
    }

    /// The sum `a + b`.
    pub fn add(p: &mut Program, a: &Vec3, b: &Vec3) -> (r: Vec3)
        requires
            a.within(old(p)),
            b.within(old(p)),
        ensures
            final(p).extends(old(p)),
            r.within(final(p)),
            forall|env: Seq<int>| #[trigger] r.val(env) == v3_add(a.val(env), b.val(env)),
    {
        let x = p.add(a.x, b.x);
        let y = p.add(a.y, b.y);
        let z = p.add(a.z, b.z);
        Vec3 { x, y, z }
    }

    /// The difference `a − b`.
    pub fn sub(p: &mut Program, a: &Vec3, b: &Vec3) -> (r: Vec3)
        requires
            a.within(old(p)),
            b.within(old(p)),
        ensures
            final(p).extends(old(p)),
            r.within(final(p)),
            forall|env: Seq<int>| #[trigger] r.val(env) == v3_sub(a.val(env), b.val(env)),
    {
        let x = p.sub(a.x, b.x);
        let y = p.sub(a.y, b.y);
        let z = p.sub(a.z, b.z);
        Vec3 { x, y, z }
    }

    /// The vector `a` scaled by `k`.
    pub fn scale(p: &mut Program, k: Wire, a: &Vec3) -> (r: Vec3)
        requires
            old(p).holds(k),
            a.within(old(p)),
        ensures
            final(p).extends(old(p)),
            r.within(final(p)),
            forall|env: Seq<int>| #[trigger] r.val(env) == v3_scale(k.val(env), a.val(env)),
    {
        let x = p.mul(k, a.x);
        let y = p.mul(k, a.y);
        let z = p.mul(k, a.z);
        Vec3 { x, y, z }
    }

    /// The inner product of `a` and `b`.
    pub fn dot(p: &mut Program, a: &Vec3, b: &Vec3) -> (r: Wire)
        requires
            a.within(old(p)),
            b.within(old(p)),
        ensures
            final(p).extends(old(p)),
            final(p).holds(r),
            forall|env: Seq<int>| #[trigger] r.val(env) == dot(a.val(env), b.val(env)),
    {
        let xx = p.mul(a.x, b.x);
        let yy = p.mul(a.y, b.y);
        let zz = p.mul(a.z, b.z);
        let s = p.add(xx, yy);
        p.add(s, zz)
    }
}

impl Mat3 {
    /// The matrix carried when the inputs read `env`.
    pub open spec fn val(self, env: Seq<int>) -> M3 {
        m3(self.r0.val(env), self.r1.val(env), self.r2.val(env))
    }

    /// All nine wires are wires of `p`.
    pub open spec fn within(self, p: &Program) -> bool {
        self.r0.within(p) && self.r1.within(p) && self.r2.within(p)
    }

    /// The wires of the first column.
    pub fn col0(&self) -> (c: Vec3)
        ensures
            c == (Vec3 { x: self.r0.x, y: self.r1.x, z: self.r2.x }),
    {
        Vec3 { x: self.r0.x, y: self.r1.x, z: self.r2.x }
    }

    /// The wires of the second column.
    pub fn col1(&self) -> (c: Vec3)
        ensures
            c == (Vec3 { x: self.r0.y, y: self.r1.y, z: self.r2.y }),
    {
        Vec3 { x: self.r0.y, y: self.r1.y, z: self.r2.y }
    }

    /// The wires of the third column.
    pub fn col2(&self) -> (c: Vec3)
        ensures
            c == (Vec3 { x: self.r0.z, y: self.r1.z, z: self.r2.z }),
    {
        Vec3 { x: self.r0.z, y: self.r1.z, z: self.r2.z }
    }

    /// The zero matrix.
    pub fn zero(p: &mut Program) -> (r: Mat3)
        ensures
            final(p).extends(old(p)),
            r.within(final(p)),
            forall|env: Seq<int>| #[trigger] r.val(env) == m3_zero(),
    {
        let r0 = Vec3::zero(p);
        let r1 = Vec3::zero(p);
        let r2 = Vec3::zero(p);
        Mat3 { r0, r1, r2 }
    }

    /// The identity matrix.
    pub fn identity(p: &mut Program) -> (r: Mat3)
        ensures
            final(p).extends(old(p)),
            r.within(final(p)),
            forall|env: Seq<int>| #[trigger] r.val(env) == m3_identity(),
    {
        let one = p.constant(1);
        let zero = p.constant(0);
        Mat3 {
            r0: Vec3 { x: one, y: zero, z: zero },
            r1: Vec3 { x: zero, y: one, z: zero },
            r2: Vec3 { x: zero, y: zero, z: one },
        }
    }

    /// The sum `a + b`.
    pub fn add(p: &mut Program, a: &Mat3, b: &Mat3) -> (r: Mat3)
        requires
            a.within(old(p)),
            b.within(old(p)),
        ensures
            final(p).extends(old(p)),
            r.within(final(p)),
            forall|env: Seq<int>| #[trigger] r.val(env) == m3_add(a.val(env), b.val(env)),
    {
        let r0 = Vec3::add(p, &a.r0, &b.r0);
        let r1 = Vec3::add(p, &a.r1, &b.r1);
        let r2 = Vec3::add(p, &a.r2, &b.r2);
        Mat3 { r0, r1, r2 }
    }

    /// The difference `a − b`.
    pub fn sub(p: &mut Program, a: &Mat3, b: &Mat3) -> (r: Mat3)
        requires
            a.within(old(p)),
            b.within(old(p)),
        ensures
            final(p).extends(old(p)),
            r.within(final(p)),
            forall|env: Seq<int>| #[trigger] r.val(env) == m3_sub(a.val(env), b.val(env)),
    {
        let r0 = Vec3::sub(p, &a.r0, &b.r0);
        let r1 = Vec3::sub(p, &a.r1, &b.r1);
        let r2 = Vec3::sub(p, &a.r2, &b.r2);
        Mat3 { r0, r1, r2 }
    }

    /// The matrix `a` scaled by `k`.
    pub fn scale(p: &mut Program, k: Wire, a: &Mat3) -> (r: Mat3)
        requires
            old(p).holds(k),
            a.within(old(p)),
        ensures
            final(p).extends(old(p)),
            r.within(final(p)),
            forall|env: Seq<int>| #[trigger] r.val(env) == m3_scale(k.val(env), a.val(env)),
    {
        let r0 = Vec3::scale(p, k, &a.r0);
        let r1 = Vec3::scale(p, k, &a.r1);
        let r2 = Vec3::scale(p, k, &a.r2);
        Mat3 { r0, r1, r2 }
    }

    /// The matrix `m` applied to the column vector `v`.
    pub fn apply(p: &mut Program, m: &Mat3, v: &Vec3) -> (r: Vec3)
        requires
            m.within(old(p)),
            v.within(old(p)),
        ensures
            final(p).extends(old(p)),
            r.within(final(p)),
            forall|env: Seq<int>| #[trigger] r.val(env) == m3_apply(m.val(env), v.val(env)),
    {
        let x = Vec3::dot(p, &m.r0, v);
        let y = Vec3::dot(p, &m.r1, v);
        let z = Vec3::dot(p, &m.r2, v);
        Vec3 { x, y, z }
    }

    /// The row vector `row` times the matrix `b`.
    fn row_times(p: &mut Program, row: &Vec3, b: &Mat3) -> (r: Vec3)
        requires
            row.within(old(p)),
            b.within(old(p)),
        ensures
            final(p).extends(old(p)),
            r.within(final(p)),
            forall|env: Seq<int>| #[trigger] r.val(env) == row_times(row.val(env), b.val(env)),
    {
        let c0 = b.col0();
        let c1 = b.col1();
        let c2 = b.col2();
        let x = Vec3::dot(p, row, &c0);
        let y = Vec3::dot(p, row, &c1);
        let z = Vec3::dot(p, row, &c2);
        let r = Vec3 { x, y, z };
        proof {
            assert forall|env: Seq<int>| #[trigger] r.val(env) == row_times(row.val(env), b.val(env)) by {
                assert(c0.val(env) == col0(b.val(env)));
                assert(c1.val(env) == col1(b.val(env)));
                assert(c2.val(env) == col2(b.val(env)));
            }
        }
        r
    }

    /// The matrix product `a · b`.
    pub fn mul(p: &mut Program, a: &Mat3, b: &Mat3) -> (r: Mat3)
        requires
            a.within(old(p)),
            b.within(old(p)),
        ensures
            final(p).extends(old(p)),
            r.within(final(p)),
            forall|env: Seq<int>| #[trigger] r.val(env) == m3_mul(a.val(env), b.val(env)),
    {
        let r0 = Mat3::row_times(p, &a.r0, b);
        let r1 = Mat3::row_times(p, &a.r1, b);
        let r2 = Mat3::row_times(p, &a.r2, b);
        Mat3 { r0, r1, r2 }
    }
}

impl Vec6 {
    /// The vector carried when the inputs read `env`.
    pub open spec fn val(self, env: Seq<int>) -> V6 {
        V6 { head: self.head.val(env), tail: self.tail.val(env) }
    }

    /// All six wires are wires of `p`.
    pub open spec fn within(self, p: &Program) -> bool {
        self.head.within(p) && self.tail.within(p)
    }

    /// The sum `a + b`.
    pub fn add(p: &mut Program, a: &Vec6, b: &Vec6) -> (r: Vec6)
        requires
            a.within(old(p)),
            b.within(old(p)),
        ensures
            final(p).extends(old(p)),
            r.within(final(p)),
            forall|env: Seq<int>| #[trigger] r.val(env) == v6_add(a.val(env), b.val(env)),
    {
        let head = Vec3::add(p, &a.head, &b.head);
        let tail = Vec3::add(p, &a.tail, &b.tail);
        Vec6 { head, tail }
    }

    /// The difference `a − b`.
    pub fn sub(p: &mut Program, a: &Vec6, b: &Vec6) -> (r: Vec6)
        requires
            a.within(old(p)),
            b.within(old(p)),
        ensures
            final(p).extends(old(p)),
            r.within(final(p)),
            forall|env: Seq<int>| #[trigger] r.val(env) == v6_sub(a.val(env), b.val(env)),
    {
        let head = Vec3::sub(p, &a.head, &b.head);
        let tail = Vec3::sub(p, &a.tail, &b.tail);
        Vec6 { head, tail }
    }
}

impl Mat6 {
    /// The matrix carried when the inputs read `env`.
    pub open spec fn val(self, env: Seq<int>) -> M6 {
        M6 { tl: self.tl.val(env), tr: self.tr.val(env), bl: self.bl.val(env), br: self.br.val(env) }
    }

    /// All thirty-six wires are wires of `p`.
    pub open spec fn within(self, p: &Program) -> bool {
        self.tl.within(p) && self.tr.within(p) && self.bl.within(p) && self.br.within(p)
    }

    /// The matrix `m` applied to the column vector `v`.
    pub fn apply(p: &mut Program, m: &Mat6, v: &Vec6) -> (r: Vec6)
        requires
            m.within(old(p)),
            v.within(old(p)),
        ensures
            final(p).extends(old(p)),
            r.within(final(p)),
            forall|env: Seq<int>| #[trigger] r.val(env) == m6_apply(m.val(env), v.val(env)),
    {
        let a = Mat3::apply(p, &m.tl, &v.head);
        let b = Mat3::apply(p, &m.tr, &v.tail);
        let head = Vec3::add(p, &a, &b);
        let c = Mat3::apply(p, &m.bl, &v.head);
        let d = Mat3::apply(p, &m.br, &v.tail);
        let tail = Vec3::add(p, &c, &d);
        Vec6 { head, tail }
    }

    /// The matrix product `a · b`.
    pub fn mul(p: &mut Program, a: &Mat6, b: &Mat6) -> (r: Mat6)
        requires
            a.within(old(p)),
            b.within(old(p)),
        ensures
            final(p).extends(old(p)),
            r.within(final(p)),
            forall|env: Seq<int>| #[trigger] r.val(env) == m6_mul(a.val(env), b.val(env)),
    {
        let x = Mat3::mul(p, &a.tl, &b.tl);
        let y = Mat3::mul(p, &a.tr, &b.bl);
        let tl = Mat3::add(p, &x, &y);
        let x = Mat3::mul(p, &a.tl, &b.tr);
        let y = Mat3::mul(p, &a.tr, &b.br);
        let tr = Mat3::add(p, &x, &y);
        let x = Mat3::mul(p, &a.bl, &b.tl);
        let y = Mat3::mul(p, &a.br, &b.bl);
        let bl = Mat3::add(p, &x, &y);
        let x = Mat3::mul(p, &a.bl, &b.tr);
        let y = Mat3::mul(p, &a.br, &b.br);
        let br = Mat3::add(p, &x, &y);
        Mat6 { tl, tr, bl, br }
    }
}

} // verus!
