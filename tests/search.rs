use lpsolve::bnb::Incumbent;
use lpsolve::{ConstraintType, SOSType, SolveStatus, Verbosity};

#[test]
fn incumbent_objective_only_increases_when_maximising() {
    let mut inc = Incumbent::new(true);
    assert_eq!(inc.objective(), None);
    assert!(!inc.can_prune(-1000));
    let offers = [(3, vec![1, 2]), (1, vec![0, 1]), (7, vec![3, 1]), (7, vec![2, 2]), (5, vec![1, 1])];
    let mut seen = Vec::new();
    for (obj, vals) in offers.iter() {
        inc.offer(*obj, vals.clone());
        seen.push(inc.objective().unwrap());
    }
    assert_eq!(seen, vec![3, 3, 7, 7, 7]);
    assert_eq!(inc.values(), Some(vec![3, 1]));
    assert!(inc.can_prune(7));
    assert!(inc.can_prune(6));
    assert!(!inc.can_prune(8));
}

#[test]
fn incumbent_objective_only_decreases_when_minimising() {
    let mut inc = Incumbent::new(false);
    assert!(inc.offer(10, vec![10]));
    assert!(!inc.offer(12, vec![12]));
    assert!(!inc.offer(10, vec![9]));
    assert!(inc.offer(4, vec![4]));
    assert_eq!(inc.objective(), Some(4));
    assert_eq!(inc.values(), Some(vec![4]));
    assert!(inc.can_prune(5));
    assert!(!inc.can_prune(3));
}

#[test]
fn solve_status_codes() {
    assert_eq!(SolveStatus::from_code(-2), Some(SolveStatus::OutOfMemory));
    assert_eq!(SolveStatus::from_code(-1), Some(SolveStatus::NotRun));
    assert_eq!(SolveStatus::from_code(0), Some(SolveStatus::Optimal));
    assert_eq!(SolveStatus::from_code(2), Some(SolveStatus::Infeasible));
    assert_eq!(SolveStatus::from_code(3), Some(SolveStatus::Unbounded));
    assert_eq!(SolveStatus::from_code(13), Some(SolveStatus::NoFeasibleFound));
    assert_eq!(SolveStatus::from_code(8), None);
    assert_eq!(SolveStatus::from_code(14), None);
    assert!(SolveStatus::Optimal.has_solution());
    assert!(!SolveStatus::Infeasible.has_solution());
}

#[test]
fn kind_codes() {
    assert_eq!(ConstraintType::Le.code(), 1);
    assert_eq!(ConstraintType::Ge.code(), 2);
    assert_eq!(ConstraintType::Eq.code(), 3);
    assert_eq!(ConstraintType::from_code(3), Some(ConstraintType::Eq));
    assert_eq!(ConstraintType::from_code(4), None);
    assert_eq!(SOSType::Type2.code(), 2);
    assert_eq!(Verbosity::Detailed.code(), 5);
}

use lpsolve::search::{most_fractional, NodeOutcome, Relaxation, Search};

const SCALE: i64 = 1_000_000;

#[test]
fn integer_program_branches_down_to_four() {
    // maximise x subject to x <= 4.5, x integer (column 0 stands for x)
    let mut s = Search::new(true, SCALE, 0, vec![0], vec![i64::MAX], vec![true]);
    let root = s.select().unwrap();
    let out = s.report(&root, Relaxation::Solved { objective: 4_500_000, values: vec![4_500_000] });
    assert_eq!(out, NodeOutcome::Branched(0));
    // both children carry the parent's bound; the later one (x >= 5) comes first
    let up = s.select().unwrap();
    assert_eq!((up.lower[0], up.upper[0], up.bound), (5, i64::MAX, 4_500_000));
    assert_eq!(s.report(&up, Relaxation::Infeasible), NodeOutcome::Pruned);
    let down = s.select().unwrap();
    assert_eq!((down.lower[0], down.upper[0]), (0, 4));
    let out = s.report(&down, Relaxation::Solved { objective: 4_000_000, values: vec![4_000_000] });
    assert_eq!(out, NodeOutcome::Integral);
    assert!(s.select().is_none());
    assert!(s.is_done());
    assert_eq!(s.status(), SolveStatus::Optimal);
    assert_eq!(s.incumbent().values(), Some(vec![4_000_000]));
    assert_eq!(s.incumbent().objective(), Some(4_000_000));
}

#[test]
fn continuous_program_is_optimal_at_the_root() {
    // maximise x + y subject to x + y <= 10: no integer column, so the root
    // relaxation is the answer
    let mut s = Search::new(true, SCALE, 0, vec![0, 0], vec![i64::MAX, i64::MAX], vec![false, false]);
    let root = s.select().unwrap();
    let out = s.report(&root, Relaxation::Solved { objective: 10 * SCALE, values: vec![10 * SCALE, 0] });
    assert_eq!(out, NodeOutcome::Integral);
    assert_eq!(s.status(), SolveStatus::Optimal);
    assert_eq!(s.incumbent().objective(), Some(10 * SCALE));
}

#[test]
fn infeasible_root_leaves_no_solution() {
    // x >= 5 and x <= 2
    let mut s = Search::new(false, SCALE, 0, vec![5], vec![2], vec![false]);
    let root = s.select().unwrap();
    assert_eq!(s.report(&root, Relaxation::Infeasible), NodeOutcome::Pruned);
    assert_eq!(s.status(), SolveStatus::Infeasible);
    assert_eq!(s.incumbent().values(), None);
}

#[test]
fn unbounded_root_ends_the_search() {
    // maximise x with x >= 0 and nothing above
    let mut s = Search::new(true, SCALE, 0, vec![0], vec![i64::MAX], vec![true]);
    let root = s.select().unwrap();
    assert_eq!(s.report(&root, Relaxation::Unbounded), NodeOutcome::Unbounded);
    assert!(s.is_done());
    assert_eq!(s.status(), SolveStatus::Unbounded);
}

#[test]
fn nodes_that_cannot_improve_are_pruned() {
    let mut s = Search::new(false, SCALE, 0, vec![0, 0], vec![9, 9], vec![true, true]);
    let root = s.select().unwrap();
    let out = s.report(&root, Relaxation::Solved { objective: 3 * SCALE, values: vec![2 * SCALE, SCALE] });
    assert_eq!(out, NodeOutcome::Integral);
    // a later node whose relaxation is no better is pruned, and a search
    // stopped with nodes left reports a suboptimal incumbent
    let mut s2 = Search::new(false, SCALE, 0, vec![0], vec![9], vec![true]);
    let r = s2.select().unwrap();
    s2.report(&r, Relaxation::Solved { objective: 1_500_000, values: vec![1_500_000] });
    let a = s2.select().unwrap();
    assert_eq!(s2.report(&a, Relaxation::Solved { objective: 2 * SCALE, values: vec![2 * SCALE] }), NodeOutcome::Integral);
    assert_eq!(s2.status(), SolveStatus::Suboptimal);
    let b = s2.select().unwrap();
    assert_eq!(s2.report(&b, Relaxation::Solved { objective: 2 * SCALE, values: vec![SCALE] }), NodeOutcome::Pruned);
    assert_eq!(s2.status(), SolveStatus::Optimal);
    assert_eq!(s.status(), SolveStatus::Optimal);
}

#[test]
fn select_takes_the_best_bound() {
    let mut s = Search::new(true, SCALE, 0, vec![0, 0], vec![10, 10], vec![true, true]);
    let root = s.select().unwrap();
    assert_eq!(s.select().is_none(), true);
    // branch on column 1, the more fractional one
    let out = s.report(&root, Relaxation::Solved { objective: 7 * SCALE, values: vec![2_100_000, 3_500_000] });
    assert_eq!(out, NodeOutcome::Branched(1));
    let first = s.select().unwrap();
    assert_eq!((first.lower[1], first.upper[1]), (4, 10));
    assert_eq!(s.report(&first, Relaxation::Solved { objective: 6 * SCALE, values: vec![2_500_000, 4 * SCALE] }), NodeOutcome::Branched(0));
    // frontier: (x1 <= 3, bound 7), (x0 <= 2, bound 6), (x0 >= 3, bound 6)
    let next = s.select().unwrap();
    assert_eq!(next.bound, 7 * SCALE);
    assert_eq!((next.lower[1], next.upper[1]), (0, 3));
}

#[test]
fn most_fractional_picks_the_column_nearest_a_half() {
    let values = [1_500_000, 2_300_000, 3_600_000, -1_400_000, 7_500_000];
    let integer = [false, true, true, true, true];
    assert_eq!(most_fractional(&values, &integer, SCALE, 0), Some(4));
    // -1.4 and 3.6 are both 0.4 from an integer: the lower index wins
    assert_eq!(most_fractional(&values[..4], &integer[..4], SCALE, 0), Some(2));
    assert_eq!(most_fractional(&values[..2], &integer[..2], SCALE, 0), Some(1));
    assert_eq!(most_fractional(&[2_000_000, -3_000_000, 1_500_000], &[true, true, false], SCALE, 0), None);
    assert_eq!(most_fractional(&[], &[], SCALE, 0), None);
}

#[test]
fn values_within_the_tolerance_count_as_integral() {
    let values = [3_999_990, 2_000_020];
    let integer = [true, true];
    assert_eq!(most_fractional(&values, &integer, SCALE, 10), Some(1));
    assert_eq!(most_fractional(&values, &integer, SCALE, 20), None);
    let mut s = Search::new(true, SCALE, 20, vec![0, 0], vec![9, 9], vec![true, true]);
    let root = s.select().unwrap();
    assert_eq!(s.report(&root, Relaxation::Solved { objective: 5_999_990, values: values.to_vec() }), NodeOutcome::Integral);
}

#[test]
fn cancelled_search_keeps_its_incumbent() {
    let mut s = Search::new(true, SCALE, 0, vec![0], vec![9], vec![true]);
    let root = s.select().unwrap();
    s.report(&root, Relaxation::Solved { objective: 2_500_000, values: vec![2_500_000] });
    let a = s.select().unwrap();
    s.report(&a, Relaxation::Solved { objective: 2 * SCALE, values: vec![2 * SCALE] });
    assert!(!s.is_done());
    s.cancel();
    assert!(s.is_done());
    assert_eq!(s.status(), SolveStatus::UserAbort);
    assert_eq!(s.incumbent().objective(), Some(2 * SCALE));
}
