//! Solvers: what advances a task one step at a time.

use crate::task::CauchyTask;
use crate::Frozen;
use std::ops::{Add, Mul};
use vstd::prelude::*;
use vstd::slice::slice_to_vec;
use vstd::std_specs::ops::{AddSpec, MulSpec};

verus! {

/// A method of integration that holds the sample it has reached.
pub trait Solver<T, N>: Sized {
    /// The time and the unknowns that the solver has reached.
    spec fn sample(&self) -> (T, Vec<N>);

    /// The solver has been started on `task` and holds one of its samples.
    open spec fn ready(&self, task: &CauchyTask<T, N>) -> bool {
        self.sample().1@.len() == task.size()
    }

    /// The solver can be started on `task`.
    open spec fn may_start(&self, task: &CauchyTask<T, N>) -> bool {
        true
    }

    /// The next step can be computed.
    open spec fn may_step(&self, task: &CauchyTask<T, N>) -> bool {
        true
    }

    /// One step may lead from `self` to `next`.
    open spec fn steps_to(&self, task: &CauchyTask<T, N>, next: &Self) -> bool {
        true
    }

    /// Starting `self` on `task` may give `started`.
    open spec fn starts(&self, task: &CauchyTask<T, N>, started: &Self) -> bool {
        true
    }

    /// Starts the solver on `task` and gives the first sample, which is the
    /// task's initial time and initial conditions.
    fn solve_task(this: Frozen<&mut Self>, task: &CauchyTask<T, N>) -> (first: (T, Vec<N>))
        requires
            task.wf(),
            old(this.inner()).may_start(task),
        ensures
            old(this.inner()).starts(task, final(this.inner())),
            final(this.inner()).ready(task),
            final(this.inner()).sample().0 == task.initial_time(),
            final(this.inner()).sample().1@ == task.initial_conditions(),
            first.0 == task.initial_time(),
            first.1@ == task.initial_conditions(),
    ;

    /// Advances by one step and gives the sample reached.
    fn next_solution(&mut self, task: &CauchyTask<T, N>) -> (reached: (T, &[N]))
        requires
            task.wf(),
            old(self).ready(task),
            old(self).may_step(task),
        ensures
            final(self).ready(task),
            old(self).steps_to(task, final(self)),
            reached.0 == final(self).sample().0,
            reached.1@ == final(self).sample().1@,
            reached.1@.len() == task.size(),
    ;
}

/// The time and the unknowns that `solver` has reached, the unknowns as a
/// sequence.
pub open spec fn sample_of<S: Solver<T, N>, T, N>(solver: &S) -> (T, Seq<N>) {
    (solver.sample().0, solver.sample().1@)
}

/// The arithmetic of the step computes what its specification says.
pub open spec fn arithmetic_obeys<T, N>() -> bool where
    T: Copy + Mul<N> + Add<Output = T>,
    N: Copy + Add<<T as Mul<N>>::Output, Output = N>,
 {
    &&& <T as MulSpec<N>>::obeys_mul_spec()
    &&& <N as AddSpec<<T as Mul<N>>::Output>>::obeys_add_spec()
    &&& <T as AddSpec<T>>::obeys_add_spec()
}

/// The unknown `y` after one step of length `step` along `slope`.
pub open spec fn advanced<T, N>(y: N, step: T, slope: N) -> N where
    T: Copy + Mul<N> + Add<Output = T>,
    N: Copy + Add<<T as Mul<N>>::Output, Output = N>,
 {
    y.add_spec(step.mul_spec(slope))
}

/// `step * slope` can be computed, and whatever it gives can be added to `y`.
pub open spec fn can_advance<T, N>(y: N, step: T, slope: N) -> bool where
    T: Copy + Mul<N> + Add<Output = T>,
    N: Copy + Add<<T as Mul<N>>::Output, Output = N>,
 {
    &&& step.mul_req(slope)
    &&& forall|scaled: <T as Mul<N>>::Output|
        (<T as MulSpec<N>>::obeys_mul_spec() ==> scaled == step.mul_spec(slope)) ==> #[trigger]
        y.add_req(scaled)
}

/// Every derivative of `task` can be evaluated at `time` and `state`, each
/// unknown can be advanced along every answer, and `step` can be added to
/// `time`.
pub open spec fn euler_may_step<T, N>(
    task: &CauchyTask<T, N>,
    step: T,
    time: T,
    state: Seq<N>,
) -> bool where
    T: Copy + Mul<N> + Add<Output = T>,
    N: Copy + Add<<T as Mul<N>>::Output, Output = N>,
 {
    &&& time.add_req(step)
    &&& forall|i: int|
        0 <= i < task.size() ==> (#[trigger] task.derivatives()[i]).admits(time, state)
    &&& forall|i: int, slope: N|
        0 <= i < task.size() && #[trigger] task.derivatives()[i].yields(time, state, slope)
            ==> can_advance(state[i], step, slope)
}

/// One explicit Euler step of length `step` may take the unknown `i` from its
/// value in `from` to `reached`: the derivative has an answer at `from` along
/// which the unknown advances to `reached`.
pub open spec fn euler_moves<T, N>(
    task: &CauchyTask<T, N>,
    step: T,
    from: (T, Seq<N>),
    reached: N,
    i: int,
) -> bool where
    T: Copy + Mul<N> + Add<Output = T>,
    N: Copy + Add<<T as Mul<N>>::Output, Output = N>,
 {
    exists|slope: N|
        {
            &&& #[trigger] task.derivatives()[i].yields(from.0, from.1, slope)
            &&& arithmetic_obeys::<T, N>() ==> reached == advanced(from.1[i], step, slope)
        }
}

/// One explicit Euler step of length `step` may lead from `from` to `to`:
/// the time grows by `step`, and each unknown is advanced along an answer of
/// its derivative at `from`.
pub open spec fn euler_step<T, N>(
    task: &CauchyTask<T, N>,
    step: T,
    from: (T, Seq<N>),
    to: (T, Seq<N>),
) -> bool where
    T: Copy + Mul<N> + Add<Output = T>,
    N: Copy + Add<<T as Mul<N>>::Output, Output = N>,
 {
    &&& to.1.len() == task.size()
    &&& arithmetic_obeys::<T, N>() ==> to.0 == from.0.add_spec(step)
    &&& forall|i: int| 0 <= i < task.size() ==> #[trigger] euler_moves(task, step, from, to.1[i], i)
}

/// The explicit Euler method with a fixed step.
pub struct EulerSolver<T, N> {
    step: T,
    current_time: T,
    last_solution: Vec<N>,
}

impl<T, N> EulerSolver<T, N> {
    /// The length of each step.
    pub closed spec fn step(&self) -> T {
        self.step
    }

    /// The time that the solver has reached.
    pub closed spec fn current_time(&self) -> T {
        self.current_time
    }

    /// The unknowns at the time that the solver has reached.
    pub closed spec fn last_solution(&self) -> Vec<N> {
        self.last_solution
    }

    /// The time and the unknowns that the solver has reached.
    pub open spec fn reached(&self) -> (T, Seq<N>) {
        (self.current_time(), self.last_solution()@)
    }
}

impl<T: Default, N> EulerSolver<T, N> {
    /// A solver that advances by `step`, yet to be started on a task.
    pub fn new(step: T) -> (r: Frozen<Self>)
        ensures
            r.inner().step() == step,
            call_ensures(T::default, (), r.inner().current_time()),
            r.inner().last_solution()@ == Seq::<N>::empty(),
    {
        Frozen(Self { step, current_time: T::default(), last_solution: Vec::new() })
    }
}

impl<T, N> Solver<T, N> for EulerSolver<T, N> where
    T: Copy + Mul<N> + Add<Output = T>,
    N: Copy + Add<<T as Mul<N>>::Output, Output = N>,
 {
    open spec fn sample(&self) -> (T, Vec<N>) {
        (self.current_time(), self.last_solution())
    }

    open spec fn may_step(&self, task: &CauchyTask<T, N>) -> bool {
        euler_may_step(task, self.step(), self.current_time(), self.last_solution()@)
    }

    open spec fn steps_to(&self, task: &CauchyTask<T, N>, next: &Self) -> bool {
        &&& next.step() == self.step()
        &&& euler_step(task, self.step(), self.reached(), next.reached())
    }

    open spec fn starts(&self, task: &CauchyTask<T, N>, started: &Self) -> bool {
        &&& started.step() == self.step()
        &&& started.reached() == (task.initial_time(), task.initial_conditions())
    }

    fn solve_task(this: Frozen<&mut Self>, task: &CauchyTask<T, N>) -> (first: (T, Vec<N>)) {
        let solver = this.0;
        solver.current_time = task.initial_time;
        solver.last_solution = slice_to_vec(task.initial_conditions.as_slice());
        (solver.current_time, slice_to_vec(solver.last_solution.as_slice()))
    }

    fn next_solution(&mut self, task: &CauchyTask<T, N>) -> (reached: (T, &[N])) {
        let mut xs: Vec<N> = Vec::new();
        let mut i: usize = 0;
        while i < self.last_solution.len()
            invariant
                task.wf(),
                self.last_solution@.len() == task.size(),
                euler_may_step(task, self.step, self.current_time, self.last_solution@),
                i <= self.last_solution@.len(),
                xs@.len() == i,
                forall|k: int|
                    0 <= k < i ==> #[trigger] euler_moves(
                        task,
                        self.step,
                        (self.current_time, self.last_solution@),
                        xs@[k],
                        k,
                    ),
            decreases self.last_solution@.len() - i,
        {
            let slope = task.derivatives[i].eval(self.current_time, self.last_solution.as_slice());
            let y = self.last_solution[i];
            let scaled = self.step * slope;
            let reached = y + scaled;
            xs.push(reached);
            proof {
                let from = (self.current_time, self.last_solution@);
                assert(task.derivatives()[i as int].yields(from.0, from.1, slope));
                assert(arithmetic_obeys::<T, N>() ==> reached == advanced(
                    from.1[i as int],
                    self.step,
                    slope,
                ));
                assert(euler_moves(task, self.step, from, reached, i as int));
            }
            i = i + 1;
        }
        self.last_solution = xs;
        self.current_time = self.current_time + self.step;
        (self.current_time, self.last_solution.as_slice())
    }
}

/// One of two values.
pub enum Either<S1, S2> {
    Left(S1),
    Right(S2),
}

impl<S1, S2> Either<Frozen<S1>, Frozen<S2>> {
    /// One frozen value out of either of two frozen values.
    pub fn rewrap(self) -> (r: Frozen<Either<S1, S2>>)
        ensures
            r.inner() == match self {
                Either::Left(x) => Either::<S1, S2>::Left(x.inner()),
                Either::Right(x) => Either::<S1, S2>::Right(x.inner()),
            },
    {
        match self {
            Either::Left(x) => Frozen(Either::Left(x.0)),
            Either::Right(x) => Frozen(Either::Right(x.0)),
        }
    }
}

impl<S1, S2, T, N> Solver<T, N> for Either<S1, S2> where S1: Solver<T, N>, S2: Solver<T, N> {
    open spec fn sample(&self) -> (T, Vec<N>) {
        match self {
            Either::Left(x) => x.sample(),
            Either::Right(x) => x.sample(),
        }
    }

    open spec fn ready(&self, task: &CauchyTask<T, N>) -> bool {
        match self {
            Either::Left(x) => x.ready(task),
            Either::Right(x) => x.ready(task),
        }
    }

    open spec fn may_start(&self, task: &CauchyTask<T, N>) -> bool {
        match self {
            Either::Left(x) => x.may_start(task),
            Either::Right(x) => x.may_start(task),
        }
    }

    open spec fn may_step(&self, task: &CauchyTask<T, N>) -> bool {
        match self {
            Either::Left(x) => x.may_step(task),
            Either::Right(x) => x.may_step(task),
        }
    }

    open spec fn steps_to(&self, task: &CauchyTask<T, N>, next: &Self) -> bool {
        match (self, next) {
            (Either::Left(x), Either::Left(y)) => x.steps_to(task, y),
            (Either::Right(x), Either::Right(y)) => x.steps_to(task, y),
            _ => false,
        }
    }

    open spec fn starts(&self, task: &CauchyTask<T, N>, started: &Self) -> bool {
        match (self, started) {
            (Either::Left(x), Either::Left(y)) => x.starts(task, y),
            (Either::Right(x), Either::Right(y)) => x.starts(task, y),
            _ => false,
        }
    }

    fn solve_task(this: Frozen<&mut Self>, task: &CauchyTask<T, N>) -> (first: (T, Vec<N>)) {
        match this.0 {
            Either::Left(x) => Solver::solve_task(Frozen(x), task),
            Either::Right(x) => Solver::solve_task(Frozen(x), task),
        }
    }

    fn next_solution(&mut self, task: &CauchyTask<T, N>) -> (reached: (T, &[N])) {
        match self {
            Either::Left(x) => x.next_solution(task),
            Either::Right(x) => x.next_solution(task),
        }
    }
}

} // verus!
