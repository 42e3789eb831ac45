//! What holds of the explicit Euler method.

use crate::solution::{follows, Solution, StopCondition};
use crate::solver::{advanced, arithmetic_obeys, euler_moves, euler_step, sample_of, EulerSolver};
use crate::task::CauchyTask;
use std::ops::{Add, Mul};
use vstd::prelude::*;
use vstd::std_specs::ops::AddSpec;

verus! {

/// Every derivative of `task` answers `zero`, whatever the time and the
/// unknowns.
pub open spec fn slopes_are<T, N>(task: &CauchyTask<T, N>, zero: N) -> bool {
    forall|i: int, time: T, state: Seq<N>, slope: N|
        0 <= i < task.size() && #[trigger] task.derivatives()[i].yields(time, state, slope)
            ==> slope == zero
}

/// A step of length `step` along `zero` leaves each unknown of `state` as it
/// is.
pub open spec fn step_is_idle<T, N>(state: Seq<N>, step: T, zero: N) -> bool where
    T: Copy + Mul<N> + Add<Output = T>,
    N: Copy + Add<<T as Mul<N>>::Output, Output = N>,
 {
    forall|i: int| 0 <= i < state.len() ==> advanced(#[trigger] state[i], step, zero) == state[i]
}

/// Where every derivative answers a slope along which a step changes nothing,
/// one Euler step keeps the unknowns and advances the time by the step.
pub proof fn lemma_idle_step<T, N>(
    task: &CauchyTask<T, N>,
    step: T,
    from: (T, Seq<N>),
    to: (T, Seq<N>),
    zero: N,
) where T: Copy + Mul<N> + Add<Output = T>, N: Copy + Add<<T as Mul<N>>::Output, Output = N>
    requires
        arithmetic_obeys::<T, N>(),
        from.1.len() == task.size(),
        euler_step(task, step, from, to),
        slopes_are(task, zero),
        step_is_idle(from.1, step, zero),
    ensures
        to.1 == from.1,
        to.0 == from.0.add_spec(step),
{
    assert forall|i: int| 0 <= i < task.size() implies to.1[i] == from.1[i] by {
        assert(euler_moves(task, step, from, to.1[i], i));
        let slope = choose|slope: N|
            {
                &&& #[trigger] task.derivatives()[i].yields(from.0, from.1, slope)
                &&& arithmetic_obeys::<T, N>() ==> to.1[i] == advanced(from.1[i], step, slope)
            };
        assert(slope == zero);
    }
    assert(to.1 =~= from.1);
}

/// Where every derivative answers a slope along which a step changes nothing,
/// every state of a run of the Euler method holds the initial conditions, and
/// each state's time is the time before it plus the step.
pub proof fn lemma_idle_run<T, N>(
    task: &CauchyTask<T, N>,
    run: Seq<EulerSolver<T, N>>,
    zero: N,
    k: int,
) where T: Copy + Mul<N> + Add<Output = T>, N: Copy + Add<<T as Mul<N>>::Output, Output = N>
    requires
        arithmetic_obeys::<T, N>(),
        task.wf(),
        0 <= k < run.len(),
        sample_of(&run[0]) == (task.initial_time(), task.initial_conditions()),
        forall|j: int| 0 <= j < run.len() - 1 ==> #[trigger] follows(task, run, j),
        slopes_are(task, zero),
        step_is_idle(task.initial_conditions(), run[0].step(), zero),
    ensures
        run[k].step() == run[0].step(),
        sample_of(&run[k]).1 == task.initial_conditions(),
        k > 0 ==> sample_of(&run[k]).0 == sample_of(&run[k - 1]).0.add_spec(run[0].step()),
    decreases k,
{
    if k > 0 {
        lemma_idle_run(task, run, zero, k - 1);
        assert(follows(task, run, k - 1));
        lemma_idle_step(task, run[0].step(), sample_of(&run[k - 1]), sample_of(&run[k]), zero);
    }
}

/// Where every derivative answers a slope along which a step changes nothing,
/// every sample that a run of the Euler method has left in a solution holds
/// the initial conditions, and the time of each sample is the time of the one
/// before it plus the step.
pub proof fn lemma_idle_solution<T, N>(
    solution: Solution<T, N>,
    solver: EulerSolver<T, N>,
    task: &CauchyTask<T, N>,
    stop: &StopCondition<T>,
    run: Seq<EulerSolver<T, N>>,
    zero: N,
    k: int,
) where
    T: Copy + Mul<N> + Add<Output = T> + PartialOrd,
    N: Copy + Add<<T as Mul<N>>::Output, Output = N>,

    requires
        arithmetic_obeys::<T, N>(),
        task.wf(),
        solution.records(solver, task, stop, run),
        slopes_are(task, zero),
        step_is_idle(task.initial_conditions(), solver.step(), zero),
        0 <= k < solution.samples(),
    ensures
        solution@[k].1 == task.initial_conditions(),
        k == 0 ==> solution@[k].0 == task.initial_time(),
        k > 0 ==> solution@[k].0 == solution@[k - 1].0.add_spec(solver.step()),
{
    lemma_idle_run(task, run, zero, k);
    assert(solution@[k] == sample_of(&run[k]));
    if k > 0 {
        assert(solution@[k - 1] == sample_of(&run[k - 1]));
    }
}

} // verus!
