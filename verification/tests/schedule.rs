use annealing::schedule::{Action, Schedule};
use annealing::solver::Solver;

const CONTINUE: Action = Action { cool: false, stop: false };
const COOL: Action = Action { cool: true, stop: false };
const STOP: Action = Action { cool: false, stop: true };
const COOL_AND_STOP: Action = Action { cool: true, stop: true };

fn quotas(iterations: u64, max_attempts: u64, max_accepts: u64, max_rejects: u64) -> Solver {
    Solver::build_new(|s| {
        s.iterations = iterations;
        s.max_attempts = max_attempts;
        s.max_accepts = max_accepts;
        s.max_rejects = max_rejects;
    })
}

fn counters(schedule: &Schedule) -> (u64, u64, u64, u64, u64, bool) {
    (
        schedule.iterations(),
        schedule.attempted(),
        schedule.accepted(),
        schedule.rejected(),
        schedule.stages(),
        schedule.is_halted(),
    )
}

#[test]
fn new_schedule_is_all_zero() {
    let schedule = Schedule::new();
    assert_eq!(counters(&schedule), (0, 0, 0, 0, 0, false));
}

#[test]
fn new_schedule_is_done_only_with_zero_iterations() {
    let schedule = Schedule::new();
    assert!(schedule.is_done(&quotas(0, 2, 2, 2)));
    assert!(!schedule.is_done(&quotas(1, 2, 2, 2)));
}

#[test]
fn step_with_zero_iterations_changes_nothing() {
    let solver = quotas(0, 2, 2, 2);
    let mut schedule = Schedule::new();
    assert_eq!(schedule.step(&solver, true), STOP);
    assert_eq!(counters(&schedule), (0, 0, 0, 0, 0, false));
}

#[test]
fn step_inside_a_stage_continues() {
    let solver = quotas(100, 3, 2, 4);
    let mut schedule = Schedule::new();
    assert_eq!(schedule.step(&solver, false), CONTINUE);
    assert_eq!(counters(&schedule), (1, 1, 0, 0, 0, false));
    assert_eq!(schedule.step(&solver, true), CONTINUE);
    assert_eq!(counters(&schedule), (2, 2, 1, 0, 0, false));
}

#[test]
fn stage_ends_on_attempts() {
    let solver = quotas(100, 3, 2, 4);
    let mut schedule = Schedule::new();
    schedule.step(&solver, false);
    schedule.step(&solver, true);
    assert_eq!(schedule.step(&solver, false), COOL);
    assert_eq!(counters(&schedule), (3, 0, 0, 0, 1, false));
}

#[test]
fn stage_ends_on_accepts() {
    let solver = quotas(100, 3, 2, 4);
    let mut schedule = Schedule::new();
    schedule.step(&solver, true);
    assert_eq!(schedule.step(&solver, true), COOL);
    assert_eq!(counters(&schedule), (2, 0, 0, 0, 1, false));
}

#[test]
fn stage_without_acceptance_counts_as_rejected() {
    let solver = quotas(100, 2, 2, 4);
    let mut schedule = Schedule::new();
    schedule.step(&solver, false);
    assert_eq!(schedule.step(&solver, false), COOL);
    assert_eq!(counters(&schedule), (2, 0, 0, 1, 1, false));
}

#[test]
fn accepting_stage_resets_the_rejected_stages() {
    let solver = quotas(100, 2, 5, 3);
    let schedule = Schedule::replay(&solver, &vec![false, false, false, false]);
    assert_eq!(counters(&schedule), (4, 0, 0, 2, 2, false));
    let schedule = Schedule::replay(&solver, &vec![false, false, false, false, true, false]);
    assert_eq!(counters(&schedule), (6, 0, 0, 0, 3, false));
    let schedule = Schedule::replay(
        &solver,
        &vec![false, false, false, false, true, false, false, false, false, false],
    );
    assert_eq!(counters(&schedule), (10, 0, 0, 2, 5, false));
}

#[test]
fn halted_run_ignores_further_outcomes() {
    let solver = quotas(100, 1, 1, 1);
    let mut schedule = Schedule::new();
    assert_eq!(schedule.step(&solver, false), COOL_AND_STOP);
    assert_eq!(counters(&schedule), (1, 0, 0, 1, 1, true));
    assert!(schedule.is_done(&solver));
    assert_eq!(schedule.step(&solver, true), STOP);
    assert_eq!(counters(&schedule), (1, 0, 0, 1, 1, true));
}

#[test]
fn iteration_cap_stops_the_run() {
    let solver = quotas(3, 10, 10, 10);
    let mut schedule = Schedule::new();
    assert_eq!(schedule.step(&solver, true), CONTINUE);
    assert_eq!(schedule.step(&solver, false), CONTINUE);
    assert_eq!(schedule.step(&solver, true), STOP);
    assert_eq!(counters(&schedule), (3, 3, 2, 0, 0, false));
    assert!(schedule.is_done(&solver));
    assert_eq!(schedule.step(&solver, true), STOP);
    assert_eq!(counters(&schedule), (3, 3, 2, 0, 0, false));
}

#[test]
fn stage_that_ends_at_the_cap_stops() {
    let solver = quotas(2, 2, 10, 10);
    let mut schedule = Schedule::new();
    schedule.step(&solver, true);
    assert_eq!(schedule.step(&solver, true), COOL_AND_STOP);
    assert_eq!(counters(&schedule), (2, 0, 0, 0, 1, false));
    assert_eq!(schedule.step(&solver, true), STOP);
}

#[test]
fn zero_quotas_end_a_stage_at_every_candidate() {
    let solver = quotas(5, 0, 0, 10);
    let schedule = Schedule::replay(&solver, &vec![true, true, true]);
    assert_eq!(counters(&schedule), (3, 0, 0, 0, 3, false));
    let schedule = Schedule::replay(&solver, &vec![false, false, false]);
    assert_eq!(counters(&schedule), (3, 0, 0, 3, 3, false));
}

#[test]
fn replay_of_nothing_is_the_start() {
    let schedule = Schedule::replay(&quotas(5, 2, 2, 2), &Vec::new());
    assert_eq!(schedule, Schedule::new());
}

#[test]
fn replay_agrees_with_stepping() {
    let solver = quotas(9, 3, 2, 2);
    let decisions = vec![true, false, false, true, true, false, false, false, true, true, false];
    let mut schedule = Schedule::new();
    for k in 0..decisions.len() {
        schedule.step(&solver, decisions[k]);
        assert_eq!(schedule, Schedule::replay(&solver, &decisions[..k + 1].to_vec()));
    }
    assert_eq!(schedule.iterations(), 9);
}

#[test]
fn all_accepted_runs_to_the_cap() {
    let solver = quotas(7, 3, 2, 1);
    let mut schedule = Schedule::new();
    for k in 1..=7u64 {
        let action = schedule.step(&solver, true);
        assert_eq!(schedule.accepted(), schedule.attempted());
        assert_eq!(schedule.rejected(), 0);
        assert!(!schedule.is_halted());
        assert_eq!(schedule.iterations(), k);
        assert_eq!(action.stop, k == 7);
        assert_eq!(action.cool, k % 2 == 0);
    }
    assert_eq!(counters(&schedule), (7, 1, 1, 0, 3, false));
}

#[test]
fn all_accepted_with_no_rejects_allowed_halts_at_the_first_stage() {
    let solver = quotas(7, 3, 2, 0);
    let schedule = Schedule::replay(&solver, &vec![true; 7]);
    assert_eq!(counters(&schedule), (2, 0, 0, 0, 1, true));
}

#[test]
fn all_rejected_halts_after_max_rejects_stages() {
    let solver = quotas(100, 3, 2, 4);
    let schedule = Schedule::replay(&solver, &vec![false; 50]);
    assert_eq!(counters(&schedule), (12, 0, 0, 4, 4, true));
    let schedule = Schedule::replay(&solver, &vec![false; 12]);
    assert_eq!(counters(&schedule), (12, 0, 0, 4, 4, true));
    let schedule = Schedule::replay(&solver, &vec![false; 11]);
    assert_eq!(counters(&schedule), (11, 2, 0, 3, 3, false));
}

#[test]
fn all_rejected_with_default_parameters() {
    let solver = Solver::new();
    let schedule = Schedule::replay(&solver, &vec![false; 1000]);
    assert_eq!(counters(&schedule), (200, 0, 0, 4, 4, true));
}

#[test]
fn short_run_completes_no_stage() {
    let solver = quotas(3, 5, 10, 1);
    let schedule = Schedule::replay(&solver, &vec![false, true, false, true, true]);
    assert_eq!(counters(&schedule), (3, 3, 1, 0, 0, false));
}

#[test]
fn short_run_that_fills_the_accept_quota_completes_a_stage() {
    let solver = quotas(3, 5, 2, 1);
    let schedule = Schedule::replay(&solver, &vec![true, true, true]);
    assert_eq!(counters(&schedule), (3, 1, 1, 0, 1, false));
}

#[test]
fn same_outcomes_give_the_same_schedule() {
    let solver = quotas(40, 4, 2, 3);
    let decisions = vec![false, true, false, false, true, true, false, false, false, false, true];
    let first = Schedule::replay(&solver, &decisions);
    let second = Schedule::replay(&solver, &decisions.clone());
    assert_eq!(first, second);
    assert_eq!(counters(&first), (11, 1, 1, 1, 3, false));
}

#[test]
fn temperatures_do_not_change_the_schedule() {
    let cold = Solver::build_new(|s| {
        s.initial_temperature = 1.0f64.to_bits();
        s.temperature_reduction = 0.5f64.to_bits();
    });
    let decisions = vec![false; 120];
    assert_eq!(Schedule::replay(&cold, &decisions), Schedule::replay(&Solver::new(), &decisions));
    assert_eq!(counters(&Schedule::replay(&cold, &decisions)), (120, 20, 0, 2, 2, false));
}
