//! The control of the iterative joint solver: when to go on, when to stop,
//! and how a round that fails is reported.
use vstd::prelude::*;

verus! {

/// Why a solve was given up.
#[derive(Clone, Copy, Debug, PartialEq, Eq, Structural)]
pub enum SolveError {
    /// The Jacobian at the current estimate has no inverse.
    SingularJacobian,
    /// The Euler angles of the current frame are not defined.
    RepresentationSingularity,
}

/// Where a solve stands.
#[derive(Clone, Copy, Debug, PartialEq, Eq, Structural)]
pub enum Phase {
    /// Still looking.
    Iterating,
    /// The pose difference came within tolerance.
    Converged,
    /// The step budget ran out before the pose difference came within
    /// tolerance.
    IterationLimitReached,
    /// A round could not be carried out.
    Failed(SolveError),
}

/// How the host's attempt at one update went.
#[derive(Clone, Copy, Debug, PartialEq, Eq, Structural)]
pub enum Outcome {
    /// The estimate was updated.
    Updated,
    /// The Jacobian could not be inverted.
    SingularJacobian,
    /// The Euler angles could not be taken.
    RepresentationSingularity,
}

/// The state of a solve, as numbers.
pub struct SolverState {
    pub phase: Phase,
    /// The count of steps, starting at one.
    pub steps: nat,
    /// The step budget.
    pub cap: nat,
    /// An update has been granted and its outcome is awaited.
    pub updating: bool,
}

/// The state in which every solve starts.
pub open spec fn initial(cap: nat) -> SolverState {
    SolverState { phase: Phase::Iterating, steps: 1, cap, updating: false }
}

/// The observation of a pose difference grants an update.
pub open spec fn grants(s: SolverState, within_tolerance: bool) -> bool {
    s.phase == Phase::Iterating && !s.updating && !within_tolerance && s.steps < s.cap
}

/// The state after the pose difference of the current estimate was held
/// against the tolerance.
pub open spec fn observed(s: SolverState, within_tolerance: bool) -> SolverState {
    if s.phase != Phase::Iterating || s.updating {
        s
    } else if within_tolerance {
        SolverState { phase: Phase::Converged, ..s }
    } else if s.steps >= s.cap {
        SolverState { phase: Phase::IterationLimitReached, ..s }
    } else {
        SolverState { updating: true, ..s }
    }
}

/// The state after the host reported how a granted update went.
pub open spec fn advanced(s: SolverState, outcome: Outcome) -> SolverState {
    if s.phase != Phase::Iterating || !s.updating {
        s
    } else {
        match outcome {
            Outcome::Updated => SolverState { steps: s.steps + 1, updating: false, ..s },
            Outcome::SingularJacobian => SolverState {
                phase: Phase::Failed(SolveError::SingularJacobian),
                updating: false,
                ..s
            },
            Outcome::RepresentationSingularity => SolverState {
                phase: Phase::Failed(SolveError::RepresentationSingularity),
                updating: false,
                ..s
            },
        }
    }
}

/// What holds of every state a solve can reach.
pub open spec fn reachable(s: SolverState) -> bool {
    &&& 1 <= s.steps
    &&& s.steps <= s.cap || s.steps == 1
    &&& s.updating ==> s.phase == Phase::Iterating && s.steps < s.cap
}

/// The state after `n` rounds: in round `k` the pose difference is within
/// tolerance if `within[k]` says so, and a granted update goes as
/// `outcomes[k]` says.
pub open spec fn after_rounds(
    cap: nat,
    within: Seq<bool>,
    outcomes: Seq<Outcome>,
    n: nat,
) -> SolverState
    decreases n,
{
    if n == 0 {
        initial(cap)
    } else {
        advanced(
            observed(after_rounds(cap, within, outcomes, (n - 1) as nat), within[n - 1]),
            outcomes[n - 1],
        )
    }
}

/// The larger of the step budget and one.
pub open spec fn budget(cap: nat) -> nat {
    if cap >= 1 {
        cap
    } else {
        1
    }
}

/// The running state of a solve.
pub struct Solver {
    phase: Phase,
    steps: usize,
    cap: usize,
    updating: bool,
}

impl Outcome {
    /// Sorts the host's findings of one round: a representation singularity
    /// comes first, since without Euler angles there is no Jacobian to
    /// invert; then a Jacobian without inverse; else the update took place.
    pub fn classify(representation_singular: bool, inverse_found: bool) -> (o: Outcome)
        ensures
            o == if representation_singular {
                Outcome::RepresentationSingularity
            } else if !inverse_found {
                Outcome::SingularJacobian
            } else {
                Outcome::Updated
            },
    {
        if representation_singular {
            Outcome::RepresentationSingularity
        } else if !inverse_found {
            Outcome::SingularJacobian
        } else {
            Outcome::Updated
        }
    }
}

impl Solver {
    /// The state as numbers.
    pub closed spec fn view(&self) -> SolverState {
        SolverState {
            phase: self.phase,
            steps: self.steps as nat,
            cap: self.cap as nat,
            updating: self.updating,
        }
    }

    #[verifier::type_invariant]
    spec fn inv(self) -> bool {
        reachable(self@)
    }

    /// Starts a solve with a budget of `try_max` steps.
    pub fn new(try_max: usize) -> (s: Solver)
        ensures
            s@ == initial(try_max as nat),
    {
        Solver { phase: Phase::Iterating, steps: 1, cap: try_max, updating: false }
    }

    /// Where the solve stands.
    pub fn phase(&self) -> (ph: Phase)
        ensures
            ph == self@.phase,
    {
        self.phase
    }

    /// The count of steps so far. It starts at one and never passes the
    /// budget, unless the budget is zero.
    pub fn steps(&self) -> (n: usize)
        ensures
            n == self@.steps,
            1 <= n <= budget(self@.cap),
    {
        proof {
            use_type_invariant(self);
        }
        self.steps
    }

    /// Takes in whether the pose difference of the current estimate is
    /// within tolerance, and says whether the host is to update the
    /// estimate.
    pub fn observe(&mut self, within_tolerance: bool) -> (go_on: bool)
        ensures
            final(self)@ == observed(old(self)@, within_tolerance),
            go_on == grants(old(self)@, within_tolerance),
            reachable(final(self)@),
    {
        proof {
            use_type_invariant(&*self);
        }
        if self.phase != Phase::Iterating || self.updating {
            false
        } else if within_tolerance {
            self.phase = Phase::Converged;
            false
        } else if self.steps >= self.cap {
            self.phase = Phase::IterationLimitReached;
            false
        } else {
            self.updating = true;
            true
        }
    }

    /// Takes in how a granted update went.
    pub fn advance(&mut self, outcome: Outcome)
        ensures
            final(self)@ == advanced(old(self)@, outcome),
            reachable(final(self)@),
    {
        proof {
            use_type_invariant(&*self);
        }
        if self.phase == Phase::Iterating && self.updating {
            match outcome {
                Outcome::Updated => {
                    self.updating = false;
                    self.steps = self.steps + 1;
                },
                Outcome::SingularJacobian => {
                    self.updating = false;
                    self.phase = Phase::Failed(SolveError::SingularJacobian);
                },
                Outcome::RepresentationSingularity => {
                    self.updating = false;
                    self.phase = Phase::Failed(SolveError::RepresentationSingularity);
                },
            }
        }
    }
}

/// Every step keeps a reachable state reachable, and the initial state is
/// reachable.
pub proof fn lemma_reachable_kept(s: SolverState, within_tolerance: bool, outcome: Outcome)
    requires
        reachable(s),
    ensures
        reachable(initial(s.cap)),
        reachable(observed(s, within_tolerance)),
        reachable(advanced(s, outcome)),
{
}

/// A solve whose first pose difference is within tolerance converges at
/// step one, whatever the budget.
pub proof fn lemma_converges_at_once(cap: nat)
    ensures
        observed(initial(cap), true).phase == Phase::Converged,
        observed(initial(cap), true).steps == 1,
        !grants(initial(cap), true),
{
}

/// A state that is not iterating never changes again.
pub proof fn lemma_terminal_stays(s: SolverState, within_tolerance: bool, outcome: Outcome)
    requires
        s.phase != Phase::Iterating,
    ensures
        observed(s, within_tolerance) == s,
        advanced(s, outcome) == s,
{
}

/// After `n` rounds the state is reachable and keeps its budget; while it
/// is still iterating, every round so far has added one step.
pub proof fn lemma_rounds(cap: nat, within: Seq<bool>, outcomes: Seq<Outcome>, n: nat)
    ensures
        reachable(after_rounds(cap, within, outcomes, n)),
        after_rounds(cap, within, outcomes, n).cap == cap,
        after_rounds(cap, within, outcomes, n).steps <= budget(cap),
        !after_rounds(cap, within, outcomes, n).updating,
        after_rounds(cap, within, outcomes, n).phase == Phase::Iterating ==> after_rounds(
            cap,
            within,
            outcomes,
            n,
        ).steps == n + 1,
    decreases n,
{
    if n > 0 {
        lemma_rounds(cap, within, outcomes, (n - 1) as nat);
    }
}

/// Every solve ends: after as many rounds as the budget allows steps, the
/// solve has converged, has reached its limit or has failed with a typed
/// error, and its step count is within the budget.
pub proof fn lemma_solve_ends(cap: nat, within: Seq<bool>, outcomes: Seq<Outcome>, n: nat)
    requires
        n >= budget(cap),
    ensures
        after_rounds(cap, within, outcomes, n).phase != Phase::Iterating,
        1 <= after_rounds(cap, within, outcomes, n).steps <= budget(cap),
{
    lemma_rounds(cap, within, outcomes, n);
}

/// As long as every granted update goes through, a solve ends converged or
/// at its iteration limit.
pub proof fn lemma_solve_ends_clean(cap: nat, within: Seq<bool>, outcomes: Seq<Outcome>, n: nat)
    requires
        n >= budget(cap),
        forall|k: int| 0 <= k < n ==> outcomes[k] == Outcome::Updated,
    ensures
        after_rounds(cap, within, outcomes, n).phase == Phase::Converged || after_rounds(
            cap,
            within,
            outcomes,
            n,
        ).phase == Phase::IterationLimitReached,
{
    lemma_solve_ends(cap, within, outcomes, n);
    lemma_never_failed(cap, within, outcomes, n);
}

proof fn lemma_never_failed(cap: nat, within: Seq<bool>, outcomes: Seq<Outcome>, n: nat)
    requires
        forall|k: int| 0 <= k < n ==> outcomes[k] == Outcome::Updated,
    ensures
        !(after_rounds(cap, within, outcomes, n).phase is Failed),
    decreases n,
{
    if n > 0 {
        lemma_never_failed(cap, within, outcomes, (n - 1) as nat);
    }
}

} // verus!
