//! Straight-line arithmetic programs and the wires that name their results.
use vstd::prelude::*;

verus! {

/// One instruction. An operand is the position of an earlier instruction.
#[derive(Clone, Copy, Debug, PartialEq, Eq)]
pub enum Op {
    /// Reads the input slot of that number.
    Input(usize),
    /// An integer constant.
    Const(i64),
    /// The negation of an earlier result.
    Neg(usize),
    /// The sum of two earlier results.
    Add(usize, usize),
    /// The first earlier result minus the second.
    Sub(usize, usize),
    /// The product of two earlier results.
    Mul(usize, usize),
}

/// What is read on input slot `k`: the `k`-th number given, zero if none was.
pub open spec fn slot_value(env: Seq<int>, k: int) -> int {
    if 0 <= k < env.len() {
        env[k]
    } else {
        0
    }
}

/// Every operand of `op`, standing at position `at`, lies before `at`.
pub open spec fn operands_precede(op: Op, at: int) -> bool {
    match op {
        Op::Input(_) => true,
        Op::Const(_) => true,
        Op::Neg(a) => a < at,
        Op::Add(a, b) => a < at && b < at,
        Op::Sub(a, b) => a < at && b < at,
        Op::Mul(a, b) => a < at && b < at,
    }
}

/// The number that instruction `i` of `ops` yields when the inputs read `env`.
pub open spec fn run(ops: Seq<Op>, env: Seq<int>, i: int) -> int
    decreases i,
{
    if 0 <= i < ops.len() && operands_precede(ops[i], i) {
        match ops[i] {
            Op::Input(k) => slot_value(env, k as int),
            Op::Const(v) => v as int,
            Op::Neg(a) => -run(ops, env, a as int),
            Op::Add(a, b) => run(ops, env, a as int) + run(ops, env, b as int),
            Op::Sub(a, b) => run(ops, env, a as int) - run(ops, env, b as int),
            Op::Mul(a, b) => run(ops, env, a as int) * run(ops, env, b as int),
        }
    } else {
        0
    }
}

/// An instruction yields the same number in every program that agrees with
/// `a` up to and including that instruction.
pub proof fn lemma_run_prefix(a: Seq<Op>, b: Seq<Op>, env: Seq<int>, i: int)
    requires
        0 <= i < a.len() <= b.len(),
        forall|j: int| 0 <= j <= i ==> a[j] == b[j],
    ensures
        run(a, env, i) == run(b, env, i),
    decreases i,
{
    if operands_precede(a[i], i) {
        match a[i] {
            Op::Input(_) => {},
            Op::Const(_) => {},
            Op::Neg(x) => {
                lemma_run_prefix(a, b, env, x as int);
            },
            Op::Add(x, y) => {
                lemma_run_prefix(a, b, env, x as int);
                lemma_run_prefix(a, b, env, y as int);
            },
            Op::Sub(x, y) => {
                lemma_run_prefix(a, b, env, x as int);
                lemma_run_prefix(a, b, env, y as int);
            },
            Op::Mul(x, y) => {
                lemma_run_prefix(a, b, env, x as int);
                lemma_run_prefix(a, b, env, y as int);
            },
        }
    }
}

/// The name of one result of a program, together with what it is worth.
#[derive(Clone, Copy)]
pub struct Wire {
    idx: usize,
    sem: Ghost<spec_fn(Seq<int>) -> int>,
}

impl Wire {
    /// The number this wire carries when the inputs read `env`.
    pub closed spec fn val(self, env: Seq<int>) -> int {
        (self.sem@)(env)
    }

    /// The position of the instruction that produces this wire.
    pub closed spec fn position(self) -> int {
        self.idx as int
    }

    /// The position of the instruction that produces this wire.
    pub fn index(&self) -> (i: usize)
        ensures
            i == self.position(),
    {
        self.idx
    }
}

/// A straight-line program: instructions in the order in which they run.
pub struct Program {
    ops: Vec<Op>,
}

impl Program {
    /// The instructions, first to last.
    pub closed spec fn view(&self) -> Seq<Op> {
        self.ops@
    }

    /// Every operand of every instruction lies before that instruction.
    pub open spec fn wf(&self) -> bool {
        forall|i: int| 0 <= i < self@.len() ==> operands_precede(#[trigger] self@[i], i)
    }

    /// `w` names an instruction of this program, and running the program
    /// yields at that instruction what the wire says it carries.
    pub closed spec fn holds(&self, w: Wire) -> bool {
        &&& w.idx < self.ops@.len()
        &&& forall|env: Seq<int>| #[trigger] w.val(env) == run(self.ops@, env, w.idx as int)
    }

    /// This program is `earlier` with instructions added at its end: what
    /// `earlier` held stays in place, stays well-formed, and every wire of
    /// `earlier` is a wire of this program too.
    pub open spec fn extends(&self, earlier: &Program) -> bool {
        &&& earlier@.len() <= self@.len()
        &&& forall|i: int| 0 <= i < earlier@.len() ==> #[trigger] self@[i] == earlier@[i]
        &&& earlier.wf() ==> self.wf()
        &&& forall|w: Wire| earlier.holds(w) ==> #[trigger] self.holds(w)
    }

    /// The empty program.
    pub fn new() -> (p: Program)
        ensures
            p@ == Seq::<Op>::empty(),
            p.wf(),
    {
        Program { ops: Vec::new() }
    }

    /// The number of instructions.
    pub fn len(&self) -> (n: usize)
        ensures
            n == self@.len(),
    {
        self.ops.len()
    }

    /// The instruction at position `i`. In a well-formed program its operands
    /// lie before `i`, so a host that runs the instructions in order finds
    /// them computed.
    pub fn op(&self, i: usize) -> (o: Op)
        requires
            i < self@.len(),
        ensures
            o == self@[i as int],
            self.wf() ==> operands_precede(o, i as int),
    {
        self.ops[i]
    }

    fn emit(&mut self, op: Op, sem: Ghost<spec_fn(Seq<int>) -> int>) -> (w: Wire)
        requires
            operands_precede(op, old(self)@.len() as int),
            forall|env: Seq<int>| #[trigger] (sem@)(env) == run(old(self)@.push(op), env, old(self)@.len() as int),
        ensures
            final(self)@ == old(self)@.push(op),
            final(self).extends(old(self)),
            final(self).holds(w),
            w.position() == old(self)@.len(),
            forall|env: Seq<int>| #[trigger] w.val(env) == (sem@)(env),
    {
        let idx = self.ops.len();
        self.ops.push(op);
        let w = Wire { idx, sem };
        proof {
            let before = old(self).ops@;
            let after = self.ops@;
            assert forall|v: Wire| old(self).holds(v) implies #[trigger] self.holds(v) by {
                assert forall|env: Seq<int>| #[trigger] v.val(env) == run(after, env, v.idx as int) by {
                    lemma_run_prefix(before, after, env, v.idx as int);
                }
            }
        }
        w
    }

    /// Appends an instruction that reads input slot `slot`.
    pub fn input(&mut self, slot: usize) -> (w: Wire)
        ensures
            final(self)@ == old(self)@.push(Op::Input(slot)),
            final(self).extends(old(self)),
            final(self).holds(w),
            w.position() == old(self)@.len(),
            forall|env: Seq<int>| #[trigger] w.val(env) == slot_value(env, slot as int),
    {
        self.emit(Op::Input(slot), Ghost(|env: Seq<int>| slot_value(env, slot as int)))
    }

    /// Appends an instruction that yields the constant `value`.
    pub fn constant(&mut self, value: i64) -> (w: Wire)
        ensures
            final(self)@ == old(self)@.push(Op::Const(value)),
            final(self).extends(old(self)),
            final(self).holds(w),
            w.position() == old(self)@.len(),
            forall|env: Seq<int>| #[trigger] w.val(env) == value,
    {
        self.emit(Op::Const(value), Ghost(|env: Seq<int>| value as int))
    }

    /// Appends the negation of `a`.
    pub fn neg(&mut self, a: Wire) -> (w: Wire)
        requires
            old(self).holds(a),
        ensures
            final(self)@ == old(self)@.push(Op::Neg(a.position() as usize)),
            final(self).extends(old(self)),
            final(self).holds(w),
            w.position() == old(self)@.len(),
            forall|env: Seq<int>| #[trigger] w.val(env) == -a.val(env),
    {
        proof {
            let next = self.ops@.push(Op::Neg(a.idx));
            assert forall|env: Seq<int>| -a.val(env) == #[trigger] run(next, env, self.ops@.len() as int) by {
                lemma_run_prefix(self.ops@, next, env, a.idx as int);
            }
        }
        self.emit(Op::Neg(a.idx), Ghost(|env: Seq<int>| -a.val(env)))
    }

    /// Appends the sum of `a` and `b`.
    pub fn add(&mut self, a: Wire, b: Wire) -> (w: Wire)
        requires
            old(self).holds(a),
            old(self).holds(b),
        ensures
            final(self)@ == old(self)@.push(Op::Add(a.position() as usize, b.position() as usize)),
            final(self).extends(old(self)),
            final(self).holds(w),
            w.position() == old(self)@.len(),
            forall|env: Seq<int>| #[trigger] w.val(env) == a.val(env) + b.val(env),
    {
        proof {
            let next = self.ops@.push(Op::Add(a.idx, b.idx));
            assert forall|env: Seq<int>| a.val(env) + b.val(env) == #[trigger] run(next, env, self.ops@.len() as int) by {
                lemma_run_prefix(self.ops@, next, env, a.idx as int);
                lemma_run_prefix(self.ops@, next, env, b.idx as int);
            }
        }
        self.emit(Op::Add(a.idx, b.idx), Ghost(|env: Seq<int>| a.val(env) + b.val(env)))
    }

    /// Appends `a` minus `b`.
    pub fn sub(&mut self, a: Wire, b: Wire) -> (w: Wire)
        requires
            old(self).holds(a),
            old(self).holds(b),
        ensures
            final(self)@ == old(self)@.push(Op::Sub(a.position() as usize, b.position() as usize)),
            final(self).extends(old(self)),
            final(self).holds(w),
            w.position() == old(self)@.len(),
            forall|env: Seq<int>| #[trigger] w.val(env) == a.val(env) - b.val(env),
    {
        proof {
            let next = self.ops@.push(Op::Sub(a.idx, b.idx));
            assert forall|env: Seq<int>| a.val(env) - b.val(env) == #[trigger] run(next, env, self.ops@.len() as int) by {
                lemma_run_prefix(self.ops@, next, env, a.idx as int);
                lemma_run_prefix(self.ops@, next, env, b.idx as int);
            }
        }
        self.emit(Op::Sub(a.idx, b.idx), Ghost(|env: Seq<int>| a.val(env) - b.val(env)))
    }

    /// Appends the product of `a` and `b`.
    pub fn mul(&mut self, a: Wire, b: Wire) -> (w: Wire)
        requires
            old(self).holds(a),
            old(self).holds(b),
        ensures
            final(self)@ == old(self)@.push(Op::Mul(a.position() as usize, b.position() as usize)),
            final(self).extends(old(self)),
            final(self).holds(w),
            w.position() == old(self)@.len(),
            forall|env: Seq<int>| #[trigger] w.val(env) == a.val(env) * b.val(env),
    {
        proof {
            let next = self.ops@.push(Op::Mul(a.idx, b.idx));
            assert forall|env: Seq<int>| a.val(env) * b.val(env) == #[trigger] run(next, env, self.ops@.len() as int) by {
                lemma_run_prefix(self.ops@, next, env, a.idx as int);
                lemma_run_prefix(self.ops@, next, env, b.idx as int);
            }
        }
        self.emit(Op::Mul(a.idx, b.idx), Ghost(|env: Seq<int>| a.val(env) * b.val(env)))
    }
}

/// The inputs of a run on machine integers, as numbers.
pub open spec fn as_ints(inputs: Seq<i64>) -> Seq<int> {
    Seq::new(inputs.len(), |i: int| inputs[i] as int)
}

/// The number fits a machine integer of 64 bits.
pub open spec fn fits(v: int) -> bool {
    i64::MIN <= v <= i64::MAX
}

impl Program {
    /// Runs the program on machine integers, exactly. The run yields the
    /// result of every instruction, first to last, if each of them fits 64
    /// bits, and nothing otherwise.
    pub fn evaluate(&self, inputs: &Vec<i64>) -> (out: Option<Vec<i64>>)
        ensures
            out is Some <==> forall|i: int|
                0 <= i < self@.len() ==> fits(#[trigger] run(self@, as_ints(inputs@), i)),
            out matches Some(v) ==> v@.len() == self@.len() && forall|i: int|
                0 <= i < self@.len() ==> v@[i] == #[trigger] run(self@, as_ints(inputs@), i),
    {
        let ghost env = as_ints(inputs@);
        let mut values: Vec<i64> = Vec::new();
        let mut i: usize = 0;
        while i < self.ops.len()
            invariant
                i <= self.ops@.len(),
                env == as_ints(inputs@),
                values@.len() == i,
                forall|j: int| 0 <= j < i ==> values@[j] == #[trigger] run(self.ops@, env, j),
            decreases self.ops@.len() - i,
        {
            let op = self.ops[i];
            let ghost exact = run(self.ops@, env, i as int);
            let found: Option<i64> = match op {
                Op::Input(k) => {
                    if k < inputs.len() {
                        assert(env[k as int] == inputs@[k as int]);
                        Some(inputs[k])
                    } else {
                        Some(0)
                    }
                },
                Op::Const(v) => Some(v),
                Op::Neg(a) => {
                    if a < i {
                        assert(values@[a as int] == run(self.ops@, env, a as int));
                        0i64.checked_sub(values[a])
                    } else {
                        Some(0)
                    }
                },
                Op::Add(a, b) => {
                    if a < i && b < i {
                        assert(values@[a as int] == run(self.ops@, env, a as int));
                        assert(values@[b as int] == run(self.ops@, env, b as int));
                        values[a].checked_add(values[b])
                    } else {
                        Some(0)
                    }
                },
                Op::Sub(a, b) => {
                    if a < i && b < i {
                        assert(values@[a as int] == run(self.ops@, env, a as int));
                        assert(values@[b as int] == run(self.ops@, env, b as int));
                        values[a].checked_sub(values[b])
                    } else {
                        Some(0)
                    }
                },
                Op::Mul(a, b) => {
                    if a < i && b < i {
                        assert(values@[a as int] == run(self.ops@, env, a as int));
                        assert(values@[b as int] == run(self.ops@, env, b as int));
                        values[a].checked_mul(values[b])
                    } else {
                        Some(0)
                    }
                },
            };
            assert(found == if fits(exact) {
                Some(exact as i64)
            } else {
                None::<i64>
            });
            match found {
                Some(v) => {
                    values.push(v);
                },
                None => {
                    assert(!fits(run(self@, as_ints(inputs@), i as int)));
                    return None;
                },
            }
            i += 1;
        }
        Some(values)
    }
}

/// Running a program yields, at a wire it holds, what the wire carries.
pub proof fn lemma_holds_runs(p: &Program, w: Wire, env: Seq<int>)
    requires
        p.holds(w),
    ensures
        0 <= w.position() < p@.len(),
        run(p@, env, w.position()) == w.val(env),
{
    assert(w.val(env) == run(p.ops@, env, w.idx as int));
}

/// A program extends itself, and extending is transitive.
pub proof fn lemma_extends_chain(a: &Program, b: &Program, c: &Program)
    requires
        b.extends(a),
        c.extends(b),
    ensures
        a.extends(a),
        c.extends(a),
{
}

} // verus!
