//! The staged schedule of an annealing run.
//!
//! A run evaluates one candidate per iteration. Iterations are grouped into
//! stages: a stage ends as soon as it has seen `max_attempts` candidates or
//! accepted `max_accepts` of them, and the temperature is lowered once at the
//! end of each stage. The run ends when the iteration cap is reached, or when
//! `max_rejects` stages in a row have ended without a single acceptance.
//!
//! Whether a candidate is accepted is decided elsewhere, by comparing real
//! numbers. The schedule takes that outcome as a `bool` and does the counting.

use vstd::prelude::*;
use crate::solver::Solver;

verus! {

/// What the search has to do after one candidate has been counted.
#[derive(Debug, Clone, Copy, PartialEq, Eq, Structural)]
pub struct Action {
    /// A stage has ended with this candidate: lower the temperature once.
    pub cool: bool,
    /// The run is over: evaluate no further candidate.
    pub stop: bool,
}

/// The counters of a run, as mathematical integers.
pub struct Progress {
    /// Candidates evaluated since the run began.
    pub iterations: nat,
    /// Candidates evaluated in the current stage.
    pub attempted: nat,
    /// Candidates accepted in the current stage.
    pub accepted: nat,
    /// Stages without an acceptance since the last stage that had one.
    pub rejected: nat,
    /// Stages completed, which is the number of times the temperature was lowered.
    pub stages: nat,
    /// Whether the rejection limit has ended the run.
    pub halted: bool,
}

impl Progress {
    /// The counters before the first candidate.
    pub open spec fn start() -> Progress {
        Progress { iterations: 0, attempted: 0, accepted: 0, rejected: 0, stages: 0, halted: false }
    }

    /// The counters are consistent with each other.
    pub open spec fn wf(self) -> bool {
        &&& self.accepted <= self.attempted
        &&& self.attempted <= self.iterations
        &&& self.rejected <= self.stages
        &&& self.stages <= self.iterations
        &&& self.iterations <= u64::MAX
    }

    /// The run is over: the rejection limit was hit or the iteration cap reached.
    pub open spec fn done(self, solver: Solver) -> bool {
        self.halted || self.iterations >= solver.iterations
    }

    /// A stage that has seen `attempted` candidates and accepted `accepted` of
    /// them ends.
    pub open spec fn closes_stage(solver: Solver, attempted: nat, accepted: nat) -> bool {
        attempted >= solver.max_attempts || accepted >= solver.max_accepts
    }

    /// The counters after one more candidate, accepted or not. A run that is
    /// over stays as it is.
    pub open spec fn next(self, solver: Solver, accept: bool) -> Progress {
        let attempted = self.attempted + 1;
        let accepted = if accept { self.accepted + 1 } else { self.accepted };
        let rejected = if accepted == 0 { self.rejected + 1 } else { 0 };
        if self.done(solver) {
            self
        } else if Self::closes_stage(solver, attempted, accepted) {
            Progress {
                iterations: self.iterations + 1,
                attempted: 0,
                accepted: 0,
                rejected: rejected,
                stages: self.stages + 1,
                halted: rejected >= solver.max_rejects,
            }
        } else {
            Progress {
                iterations: self.iterations + 1,
                attempted: attempted,
                accepted: accepted,
                ..self
            }
        }
    }

    /// What the search is told after that candidate.
    pub open spec fn action(self, solver: Solver, accept: bool) -> Action {
        let after = self.next(solver, accept);
        Action { cool: after.stages > self.stages, stop: after.done(solver) }
    }

    /// The counters of a run that has been given `decisions`, one acceptance
    /// outcome per candidate in order. Outcomes that come after the run is
    /// over change nothing.
    pub open spec fn after(solver: Solver, decisions: Seq<bool>) -> Progress
        decreases decisions.len(),
    {
        if decisions.len() == 0 {
            Progress::start()
        } else {
            Progress::after(solver, decisions.drop_last()).next(solver, decisions.last())
        }
    }
}

/// The counters of a run. They are always consistent with each other.
#[derive(Debug, Clone, Copy, PartialEq, Eq, Structural)]
pub struct Schedule {
    iterations: u64,
    attempted: u64,
    accepted: u64,
    rejected: u64,
    stages: u64,
    halted: bool,
}

impl View for Schedule {
    type V = Progress;

    closed spec fn view(&self) -> Progress {
        Progress {
            iterations: self.iterations as nat,
            attempted: self.attempted as nat,
            accepted: self.accepted as nat,
            rejected: self.rejected as nat,
            stages: self.stages as nat,
            halted: self.halted,
        }
    }
}

impl Schedule {
    #[verifier::type_invariant]
    spec fn consistent(self) -> bool {
        self@.wf()
    }

    /// The schedule of a run that has not seen a candidate yet.
    pub fn new() -> (schedule: Schedule)
        ensures
            schedule@ == Progress::start(),
    {
        Schedule { iterations: 0, attempted: 0, accepted: 0, rejected: 0, stages: 0, halted: false }
    }

    /// Whether the run is over.
    pub fn is_done(&self, solver: &Solver) -> (done: bool)
        ensures
            done == self@.done(*solver),
    {
        self.halted || self.iterations >= solver.iterations
    }

    /// Counts one candidate, accepted or not, and says what to do next.
    ///
    /// On a run that is over nothing changes, and the answer is to stop
    /// without cooling.
    pub fn step(&mut self, solver: &Solver, accept: bool) -> (action: Action)
        ensures
            final(self)@ == old(self)@.next(*solver, accept),
            action == old(self)@.action(*solver, accept),
    {
        proof {
            use_type_invariant(&*self);
        }
        if self.is_done(solver) {
            return Action { cool: false, stop: true };
        }
        let attempted: u64 = self.attempted + 1;
        let accepted: u64 = if accept { self.accepted + 1 } else { self.accepted };
        let closes = attempted >= solver.max_attempts || accepted >= solver.max_accepts;
        if closes {
            let rejected: u64 = if accepted == 0 { self.rejected + 1 } else { 0 };
            *self = Schedule {
                iterations: self.iterations + 1,
                attempted: 0,
                accepted: 0,
                rejected: rejected,
                stages: self.stages + 1,
                halted: rejected >= solver.max_rejects,
            };
        } else {
            *self = Schedule {
                iterations: self.iterations + 1,
                attempted: attempted,
                accepted: accepted,
                rejected: self.rejected,
                stages: self.stages,
                halted: self.halted,
            };
        }
        Action { cool: closes, stop: self.is_done(solver) }
    }

    /// Runs the schedule over a recorded list of acceptance outcomes.
    pub fn replay(solver: &Solver, decisions: &Vec<bool>) -> (schedule: Schedule)
        ensures
            schedule@ == Progress::after(*solver, decisions@),
    {
        let mut schedule = Schedule::new();
        let mut i: usize = 0;
        while i < decisions.len()
            invariant
                i <= decisions.len(),
                schedule@ == Progress::after(*solver, decisions@.take(i as int)),
            decreases decisions.len() - i,
        {
            proof {
                assert(decisions@.take(i + 1).drop_last() =~= decisions@.take(i as int));
            }
            schedule.step(solver, decisions[i]);
            i = i + 1;
        }
        proof {
            assert(decisions@.take(i as int) =~= decisions@);
        }
        schedule
    }

    /// Candidates evaluated since the run began.
    pub fn iterations(&self) -> (n: u64)
        ensures
            n == self@.iterations,
    {
        self.iterations
    }

    /// Candidates evaluated in the current stage.
    pub fn attempted(&self) -> (n: u64)
        ensures
            n == self@.attempted,
    {
        self.attempted
    }

    /// Candidates accepted in the current stage.
    pub fn accepted(&self) -> (n: u64)
        ensures
            n == self@.accepted,
    {
        self.accepted
    }

    /// Stages without an acceptance since the last stage that had one.
    pub fn rejected(&self) -> (n: u64)
        ensures
            n == self@.rejected,
    {
        self.rejected
    }

    /// Stages completed, which is the number of times the temperature was lowered.
    pub fn stages(&self) -> (n: u64)
        ensures
            n == self@.stages,
    {
        self.stages
    }

    /// Whether the rejection limit has ended the run.
    pub fn is_halted(&self) -> (halted: bool)
        ensures
            halted == self@.halted,
    {
        self.halted
    }
}

} // verus!
