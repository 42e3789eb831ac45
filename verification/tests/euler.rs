use cauchy::solution::{Solution, StopCondition};
use cauchy::solver::{Either, EulerSolver, Solver};
use cauchy::task::{f, CauchyTask, Function};

fn decay() -> CauchyTask<f64, f64> {
    CauchyTask::new([f(|_t: f64, y: &[f64; 1]| -y[0])], 0.0, [1.0])
}

fn chain() -> CauchyTask<f64, f64> {
    let k1 = 0.577;
    let k2 = 0.422;
    CauchyTask::new(
        [
            f(move |_t: f64, &[x1, _]: &[f64; 2]| -k1 * x1),
            f(move |_t: f64, &[x1, x2]: &[f64; 2]| k1 * x1 - k2 * x2),
        ],
        0.0,
        [1.0, 0.0],
    )
}

#[test]
fn function_evaluates_its_closure() {
    let g: Function<f64, f64> = Function::new(|t: f64, y: &[f64; 2]| t + y[0] * y[1]);
    assert_eq!(g.eval(1.0, &[2.0, 3.0]), 7.0);
}

#[test]
fn first_sample_is_the_initial_one() {
    let task = chain();
    let mut solver = EulerSolver::new(0.1);
    let first = Solver::solve_task(solver.as_mut(), &task);
    assert_eq!(first, (0.0, vec![1.0, 0.0]));
}

#[test]
fn one_step_of_decay() {
    let task = decay();
    let mut solver = EulerSolver::new(0.1);
    let solution = Solution::compute(solver.as_mut(), &task, StopCondition::Timed { maximum: 0.1 });
    assert_eq!(solution.time(), &[0.0, 0.1]);
    assert_eq!(&solution[0], &[1.0, 0.9]);
}

#[test]
fn one_step_of_decay_chain() {
    let task = chain();
    let mut solver = EulerSolver::new(0.1);
    let solution = Solution::compute(solver.as_mut(), &task, StopCondition::Timed { maximum: 0.1 });
    assert_eq!(solution.time(), &[0.0, 0.1]);
    assert_eq!(&solution[0], &[1.0, 0.9423]);
    assert_eq!(&solution[1], &[0.0, 0.0577]);
}

#[test]
fn zero_slopes_leave_the_state_alone() {
    let task = CauchyTask::new(
        [f(|_t: f64, _y: &[f64; 2]| 0.0), f(|_t: f64, _y: &[f64; 2]| 0.0)],
        1.0,
        [3.5, -2.25],
    );
    let mut solver = EulerSolver::new(0.5);
    let solution = Solution::compute(solver.as_mut(), &task, StopCondition::Timed { maximum: 3.0 });
    assert_eq!(solution.time(), &[1.0, 1.5, 2.0, 2.5, 3.0]);
    assert_eq!(&solution[0], &[3.5; 5]);
    assert_eq!(&solution[1], &[-2.25; 5]);
}

#[test]
fn sample_at_the_maximum_is_kept_and_the_next_is_not() {
    let task = decay();
    let mut solver = EulerSolver::new(0.25);
    let solution = Solution::compute(solver.as_mut(), &task, StopCondition::Timed { maximum: 0.5 });
    assert_eq!(solution.time(), &[0.0, 0.25, 0.5]);
    assert_eq!(&solution[0], &[1.0, 0.75, 0.5625]);
}

#[test]
fn nothing_is_kept_when_the_initial_time_is_past_the_maximum() {
    let task = decay();
    let mut solver = EulerSolver::new(0.25);
    let solution = Solution::compute(solver.as_mut(), &task, StopCondition::Timed { maximum: -1.0 });
    assert!(solution.time().is_empty());
    assert!(solution[0].is_empty());
    assert!(solution[7].is_empty());
}

#[test]
fn either_side_solves_alike() {
    let task = chain();
    let mut left = Either::<_, cauchy::Frozen<EulerSolver<f64, f64>>>::Left(EulerSolver::new(0.1)).rewrap();
    let mut right = Either::<cauchy::Frozen<EulerSolver<f64, f64>>, _>::Right(EulerSolver::new(0.1)).rewrap();
    let a = Solution::compute(left.as_mut(), &task, StopCondition::Timed { maximum: 1.0 });
    let b = Solution::compute(right.as_mut(), &task, StopCondition::Timed { maximum: 1.0 });
    assert_eq!(a.time(), b.time());
    assert_eq!(a.time().len(), 11);
    assert_eq!(&a[0], &b[0]);
    assert_eq!(&a[1], &b[1]);
}

#[test]
fn next_solution_advances_by_one_step() {
    let task = decay();
    let mut engine = Either::<_, cauchy::Frozen<EulerSolver<f64, f64>>>::Left(EulerSolver::new(0.5)).rewrap();
    let solution = Solution::compute(engine.as_mut(), &task, StopCondition::Timed { maximum: 1.0 });
    assert_eq!(solution.time(), &[0.0, 0.5, 1.0]);
    assert_eq!(&solution[0], &[1.0, 0.5, 0.25]);
}
