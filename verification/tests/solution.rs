use cauchy::interval::Interval;
use cauchy::solution::{Solution, StopCondition};
use cauchy::solver::{EulerSolver, Solver};
use cauchy::task::{f, CauchyTask};
use cauchy::Frozen;

/// A solver that counts: its unknowns are the number of steps taken, once as
/// it is and once negated.
struct Counter {
    steps: i64,
    state: Vec<i64>,
}

impl Solver<i64, i64> for Counter {
    fn sample(&self) -> (i64, Vec<i64>) {
        (self.steps, self.state.clone())
    }

    fn solve_task(this: Frozen<&mut Self>, task: &CauchyTask<i64, i64>) -> (i64, Vec<i64>) {
        let view = task.as_ffi();
        let this = this.init(|it| {
            it.steps = view.initial_time;
            it.state = view.initial_conditions.to_vec();
        });
        (this.steps, this.state.clone())
    }

    fn next_solution(&mut self, _task: &CauchyTask<i64, i64>) -> (i64, &[i64]) {
        self.steps += 1;
        self.state = vec![self.steps, -self.steps];
        (self.steps, &self.state)
    }
}

fn two_unknowns() -> CauchyTask<i64, i64> {
    CauchyTask::new(
        [f(|_t: i64, _y: &[i64; 2]| 0), f(|_t: i64, _y: &[i64; 2]| 0)],
        0,
        [0, 0],
    )
}

#[test]
fn each_component_holds_its_unknown_of_every_sample() {
    let task = two_unknowns();
    let mut solver = Frozen::new(Counter { steps: 7, state: vec![] });
    let solution = Solution::compute(solver.as_mut(), &task, StopCondition::Timed { maximum: 3 });
    assert_eq!(solution.time(), &[0, 1, 2, 3]);
    assert_eq!(&solution[0], &[0, 1, 2, 3]);
    assert_eq!(&solution[1], &[0, -1, -2, -3]);
    assert_eq!(solution[0].len(), solution.time().len());
    assert_eq!(solution[1].len(), solution.time().len());
}

#[test]
fn times_past_the_maximum_are_dropped_for_good() {
    let task = two_unknowns();
    let mut solver = Frozen::new(Counter { steps: 0, state: vec![] });
    let solution = Solution::compute(solver.as_mut(), &task, StopCondition::Timed { maximum: -1 });
    assert_eq!(solution.time().len(), 0);
    assert_eq!(solution[0].len(), 0);
    assert_eq!(solution[1].len(), 0);
}

#[test]
fn solver_stands_at_the_first_sample_that_was_not_kept() {
    let task = two_unknowns();
    let mut solver = Frozen::new(Counter { steps: 7, state: vec![] });
    Solution::compute(solver.as_mut(), &task, StopCondition::Timed { maximum: 3 });
    let counter = solver.init(|_| {});
    assert_eq!(counter.steps, 4);
    assert_eq!(counter.state, vec![4, -4]);
}

#[test]
fn init_hands_out_the_value_after_the_closure() {
    assert_eq!(Frozen::new(1).init(|it| *it += 41), 42);
}

#[test]
fn as_mut_reaches_the_value_inside() {
    let mut frozen = Frozen::new(vec![1]);
    frozen.as_mut().init(|it| it.push(2));
    assert_eq!(frozen.init(|_| {}), vec![1, 2]);
}

#[test]
fn stop_keeps_the_maximum_itself() {
    let stop = StopCondition::Timed { maximum: 2.0 };
    assert!(stop.keeps(&1.5));
    assert!(stop.keeps(&2.0));
    assert!(!stop.keeps(&2.5));
    assert!(!stop.keeps(&f64::NAN));
}

#[test]
fn task_without_unknowns_has_times_only() {
    let task: CauchyTask<f64, f64> = CauchyTask::new([], 0.0, []);
    let mut solver = EulerSolver::new(0.5);
    let solution = Solution::compute(solver.as_mut(), &task, StopCondition::Timed { maximum: 1.0 });
    assert_eq!(solution.time(), &[0.0, 0.5, 1.0]);
}

#[test]
fn intervals_are_integrated_end_by_end() {
    let k = Interval::new(1.0, 2.0);
    let task = CauchyTask::new(
        [f(move |_t: Step, y: &[Interval<f64>; 1]| -(k * y[0]))],
        Step(0.0),
        [Interval::new(1.0, 1.0)],
    );
    let mut solver = EulerSolver::new(Step(0.25));
    let solution =
        Solution::compute(solver.as_mut(), &task, StopCondition::Timed { maximum: Step(0.25) });
    assert_eq!(solution.time(), &[Step(0.0), Step(0.25)]);
    assert_eq!(&solution[0], &[Interval::new(1.0, 1.0), Interval::new(0.5, 0.75)]);
}

/// A time that can scale an interval.
#[derive(Clone, Copy, Debug, Default, PartialEq, PartialOrd)]
struct Step(f64);

impl std::ops::Add for Step {
    type Output = Step;

    fn add(self, rhs: Step) -> Step {
        Step(self.0 + rhs.0)
    }
}

impl std::ops::Mul<Interval<f64>> for Step {
    type Output = Interval<f64>;

    fn mul(self, rhs: Interval<f64>) -> Interval<f64> {
        rhs.scale(self.0)
    }
}
