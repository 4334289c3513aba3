//! What holds of every run of the schedule.

use vstd::prelude::*;
use crate::solver::Solver;
use crate::schedule::Progress;

verus! {

/// Every outcome in `decisions` is `value`.
pub open spec fn all_are(decisions: Seq<bool>, value: bool) -> bool {
    forall|i: int| 0 <= i < decisions.len() ==> decisions[i] == value
}

/// How many outcomes in `decisions` are acceptances.
pub open spec fn accepts(decisions: Seq<bool>) -> nat
    decreases decisions.len(),
{
    if decisions.len() == 0 {
        0
    } else {
        accepts(decisions.drop_last()) + if decisions.last() { 1nat } else { 0nat }
    }
}

/// The number of outcomes that a run takes from a list of `len`: all of them,
/// or as many as the iteration cap allows.
pub open spec fn taken(solver: Solver, len: nat) -> nat {
    if len <= solver.iterations { len } else { solver.iterations as nat }
}

/// Whatever the outcomes, the counters stay consistent, a run never passes
/// the iteration cap, it counts every outcome until it is over, a stage that
/// is still open is below both quotas, and a run that was halted has just
/// closed a stage with the rejection limit reached.
pub proof fn lemma_run_invariant(solver: Solver, decisions: Seq<bool>)
    ensures
        Progress::after(solver, decisions).wf(),
        Progress::after(solver, decisions).iterations <= taken(solver, decisions.len()),
        !Progress::after(solver, decisions).halted ==> Progress::after(solver, decisions).iterations
            == taken(solver, decisions.len()),
        Progress::after(solver, decisions).attempted < solver.max_attempts
            && Progress::after(solver, decisions).accepted < solver.max_accepts
            || Progress::after(solver, decisions).attempted == 0,
        Progress::after(solver, decisions).halted ==> {
            &&& Progress::after(solver, decisions).stages >= 1
            &&& Progress::after(solver, decisions).attempted == 0
            &&& Progress::after(solver, decisions).rejected >= solver.max_rejects
        },
    decreases decisions.len(),
{
    if decisions.len() > 0 {
        lemma_run_invariant(solver, decisions.drop_last());
    }
}

/// A run in which every candidate is accepted is never halted: it ends at the
/// iteration cap and not before. All along, the stage's accepted count equals
/// its attempted count, at each stage's end too, and no stage counts as
/// rejected.
///
/// This needs a rejection limit of at least one, or an iteration cap so low
/// that no stage can end: with a limit of zero the first stage to end halts
/// the run, whatever it accepted.
pub proof fn lemma_all_accepted(solver: Solver, decisions: Seq<bool>)
    requires
        all_are(decisions, true),
        solver.max_rejects >= 1 || solver.iterations == 0 || (solver.iterations
            < solver.max_attempts && solver.iterations < solver.max_accepts),
    ensures
        Progress::after(solver, decisions).accepted == Progress::after(solver, decisions).attempted,
        Progress::after(solver, decisions).rejected == 0,
        !Progress::after(solver, decisions).halted,
        Progress::after(solver, decisions).iterations == taken(solver, decisions.len()),
    decreases decisions.len(),
{
    if decisions.len() > 0 {
        lemma_all_accepted(solver, decisions.drop_last());
        lemma_run_invariant(solver, decisions.drop_last());
    }
}

/// What a run has reached after `decisions`, all of them rejections, while it
/// has not had enough of them to be halted: it has counted them all, every
/// completed stage took `max_attempts` of them and counts as rejected, and it
/// is halted just when `max_rejects` stages are complete.
proof fn lemma_rejections_so_far(solver: Solver, decisions: Seq<bool>)
    requires
        all_are(decisions, false),
        solver.max_attempts >= 1,
        solver.max_accepts >= 1 || solver.max_attempts == 1,
        solver.max_rejects >= 1,
        decisions.len() <= solver.max_attempts * solver.max_rejects,
        decisions.len() <= solver.iterations,
    ensures
        Progress::after(solver, decisions).iterations == decisions.len(),
        Progress::after(solver, decisions).accepted == 0,
        Progress::after(solver, decisions).attempted < solver.max_attempts,
        Progress::after(solver, decisions).rejected == Progress::after(solver, decisions).stages,
        Progress::after(solver, decisions).stages <= solver.max_rejects,
        decisions.len() == Progress::after(solver, decisions).stages * solver.max_attempts
            + Progress::after(solver, decisions).attempted,
        Progress::after(solver, decisions).halted <==> Progress::after(solver, decisions).stages
            == solver.max_rejects,
    decreases decisions.len(),
{
    if decisions.len() > 0 {
        let before = Progress::after(solver, decisions.drop_last());
        let attempts = solver.max_attempts as int;
        let rejects = solver.max_rejects as int;
        let stages = before.stages as int;
        lemma_rejections_so_far(solver, decisions.drop_last());
        assert(stages < rejects) by (nonlinear_arith)
            requires
                stages * attempts + before.attempted < attempts * rejects,
                stages <= rejects,
                attempts >= 1,
        {
        }
        assert((stages + 1) * attempts == stages * attempts + attempts) by (nonlinear_arith);
        if before.attempted + 1 < attempts {
            assert(stages + 1 <= rejects);
        }
    }
}

/// A run in which every candidate is rejected ends halted after exactly
/// `max_rejects` stages of exactly `max_attempts` candidates each, every one
/// of them counted as rejected.
///
/// This needs an iteration cap that leaves room for those stages, a rejection
/// limit and an attempt quota of at least one, and an accept quota of at
/// least one where a stage is longer than one candidate: a quota of zero ends
/// a stage at its first candidate.
pub proof fn lemma_all_rejected(solver: Solver, decisions: Seq<bool>)
    requires
        all_are(decisions, false),
        solver.max_attempts >= 1,
        solver.max_accepts >= 1 || solver.max_attempts == 1,
        solver.max_rejects >= 1,
        decisions.len() >= solver.max_attempts * solver.max_rejects,
        solver.iterations >= solver.max_attempts * solver.max_rejects,
    ensures
        Progress::after(solver, decisions).halted,
        Progress::after(solver, decisions).iterations == solver.max_attempts * solver.max_rejects,
        Progress::after(solver, decisions).stages == solver.max_rejects,
        Progress::after(solver, decisions).rejected == solver.max_rejects,
        Progress::after(solver, decisions).attempted == 0,
        Progress::after(solver, decisions).accepted == 0,
    decreases decisions.len(),
{
    let attempts = solver.max_attempts as int;
    let rejects = solver.max_rejects as int;
    if decisions.len() == attempts * rejects {
        let after = Progress::after(solver, decisions);
        let stages = after.stages as int;
        lemma_rejections_so_far(solver, decisions);
        assert(stages == rejects) by (nonlinear_arith)
            requires
                attempts * rejects == stages * attempts + after.attempted,
                after.attempted < attempts,
                stages <= rejects,
        {
        }
        assert(after.attempted == 0) by (nonlinear_arith)
            requires
                attempts * rejects == stages * attempts + after.attempted,
                stages == rejects,
        {
        }
    } else {
        lemma_all_rejected(solver, decisions.drop_last());
    }
}

/// A run whose iteration cap is below `max_attempts` ends at the iteration
/// cap without having completed a stage: the temperature was never lowered.
///
/// This needs the run to accept fewer than `max_accepts` of the candidates it
/// takes: the accept quota ends a stage too.
pub proof fn lemma_short_run(solver: Solver, decisions: Seq<bool>)
    requires
        solver.iterations < solver.max_attempts,
        taken(solver, decisions.len()) == 0 || accepts(
            decisions.take(taken(solver, decisions.len()) as int),
        ) < solver.max_accepts,
    ensures
        Progress::after(solver, decisions).stages == 0,
        Progress::after(solver, decisions).rejected == 0,
        !Progress::after(solver, decisions).halted,
        Progress::after(solver, decisions).iterations == taken(solver, decisions.len()),
        Progress::after(solver, decisions).attempted == taken(solver, decisions.len()),
        Progress::after(solver, decisions).accepted == accepts(
            decisions.take(taken(solver, decisions.len()) as int),
        ),
    decreases decisions.len(),
{
    if decisions.len() > 0 {
        let shorter = decisions.drop_last();
        if decisions.len() <= solver.iterations {
            assert(decisions.take(decisions.len() as int) =~= decisions);
            assert(shorter.take(shorter.len() as int) =~= shorter);
        } else {
            assert(shorter.take(solver.iterations as int) =~= decisions.take(
                solver.iterations as int,
            ));
        }
        lemma_short_run(solver, shorter);
    } else {
        assert(decisions.take(0) =~= decisions);
    }
}

/// The schedule depends on the four quotas and on the outcomes, and on
/// nothing else: two runs with the same quotas that are given the same
/// outcomes in the same order reach the same counters, whatever their
/// temperatures.
pub proof fn lemma_same_outcomes_same_run(
    first: Solver,
    second: Solver,
    decisions: Seq<bool>,
    again: Seq<bool>,
)
    requires
        first.iterations == second.iterations,
        first.max_attempts == second.max_attempts,
        first.max_accepts == second.max_accepts,
        first.max_rejects == second.max_rejects,
        decisions =~= again,
    ensures
        Progress::after(first, decisions) == Progress::after(second, again),
    decreases decisions.len(),
{
    if decisions.len() > 0 {
        lemma_same_outcomes_same_run(first, second, decisions.drop_last(), again.drop_last());
    }
}

/// How often a run that is given `decisions` is told to lower the
/// temperature.
pub open spec fn cools(solver: Solver, decisions: Seq<bool>) -> nat
    decreases decisions.len(),
{
    if decisions.len() == 0 {
        0
    } else {
        let before = Progress::after(solver, decisions.drop_last());
        cools(solver, decisions.drop_last()) + if before.action(solver, decisions.last()).cool {
            1nat
        } else {
            0nat
        }
    }
}

/// The temperature is lowered once for each completed stage, whichever quota
/// ended the stage: a run is told to cool exactly as often as it has completed
/// a stage.
pub proof fn lemma_cools_once_per_stage(solver: Solver, decisions: Seq<bool>)
    ensures
        cools(solver, decisions) == Progress::after(solver, decisions).stages,
    decreases decisions.len(),
{
    if decisions.len() > 0 {
        lemma_cools_once_per_stage(solver, decisions.drop_last());
    }
}

} // verus!
