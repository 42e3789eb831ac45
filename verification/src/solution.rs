//! The samples of one integration, kept by component.

use crate::order::{at_most, comparisons_obey};
use crate::solver::{sample_of, Solver};
use crate::task::CauchyTask;
use crate::Frozen;
use std::ops::Index;
use vstd::prelude::*;
use vstd::slice::{slice_subrange, slice_to_vec};

verus! {

/// When an integration stops.
pub enum StopCondition<T> {
    /// The last time for which a sample is kept.
    Timed { maximum: T },
}

impl<T: PartialOrd> StopCondition<T> {
    /// A sample at `time` is kept.
    pub open spec fn retains(&self, time: T) -> bool {
        match self {
            StopCondition::Timed { maximum } => at_most(time, *maximum),
        }
    }

    /// Tells whether a sample at `time` is kept: one at the maximum still is.
    pub fn keeps(&self, time: &T) -> (kept: bool)
        ensures
            comparisons_obey::<T>() ==> kept == self.retains(*time),
    {
        match self {
            StopCondition::Timed { maximum } => *time <= *maximum,
        }
    }
}

/// The samples of an integration: their times, and the values of each unknown
/// at those times, one unknown after the other.
pub struct Solution<T, N> {
    time: Vec<T>,
    outputs: Vec<N>,
    size: Ghost<nat>,
}

impl<T, N> Solution<T, N> {
    /// The number of samples.
    pub closed spec fn samples(&self) -> nat {
        self.time@.len()
    }

    /// The number of unknowns in each sample.
    pub closed spec fn size(&self) -> nat {
        self.size@
    }

    /// The times of the samples, in the order in which they came.
    pub closed spec fn times(&self) -> Seq<T> {
        self.time@
    }

    /// The values of the unknown `i` at the samples, in the order in which they
    /// came.
    pub closed spec fn component(&self, i: int) -> Seq<N> {
        self.outputs@.subrange(self.samples() * i, self.samples() * (i + 1))
    }

    /// Each unknown has one value for each sample.
    pub closed spec fn wf(&self) -> bool {
        self.outputs@.len() == self.samples() * self.size()
    }

    /// The unknown `i` can be asked for: it is one of the unknowns, or there
    /// are no samples at all.
    pub open spec fn has_component(&self, i: int) -> bool {
        0 <= i && (self.samples() == 0 || i < self.size())
    }

    /// The samples: each a time with the unknowns at that time.
    pub open spec fn view(&self) -> Seq<(T, Seq<N>)> {
        Seq::new(
            self.samples(),
            |k: int| (self.times()[k], Seq::new(self.size(), |i: int| self.component(i)[k])),
        )
    }
}

impl<T: PartialOrd, N> Solution<T, N> {
    /// The times of the samples, in the order in which they came.
    pub fn time(&self) -> (r: &[T])
        ensures
            r@ == self.times(),
            r@.len() == self.samples(),
    {
        self.time.as_slice()
    }

    /// `run` is how `solver` went through `task` while `self` was recorded:
    /// it starts at the task's initial sample, each state follows from the one
    /// before by one step, `self` holds the samples of all states but the
    /// last, in order, and `stop` keeps them all. The last state holds the
    /// first sample that `stop` does not keep, unless `self` is as long as a
    /// list can be.
    pub open spec fn records<S: Solver<T, N>>(
        &self,
        solver: S,
        task: &CauchyTask<T, N>,
        stop: &StopCondition<T>,
        run: Seq<S>,
    ) -> bool {
        &&& run.len() == self.samples() + 1
        &&& solver.starts(task, &run[0])
        &&& sample_of(&run[0]) == (task.initial_time(), task.initial_conditions())
        &&& forall|k: int| 0 <= k < self.samples() ==> #[trigger] follows(task, run, k)
        &&& forall|k: int| 0 <= k < self.samples() ==> self@[k] == sample_of(#[trigger] &run[k])
        &&& forall|k: int|
            0 <= k < self.samples() && comparisons_obey::<T>() ==> stop.retains(
                sample_of(#[trigger] &run[k]).0,
            )
        &&& self.samples() == usize::MAX || (comparisons_obey::<T>() ==> !stop.retains(
            sample_of(&run.last()).0,
        ))
    }

    /// Runs `solver` on `task` from its initial sample and keeps the samples
    /// up to the first one that `stop` does not keep. A run whose samples
    /// would outgrow the greatest length of a list ends at that length.
    pub fn compute<S: Solver<T, N>>(
        solver: Frozen<&mut S>,
        task: &CauchyTask<T, N>,
        stop: StopCondition<T>,
    ) -> (r: Self) where T: Copy, N: Copy
        requires
            task.wf(),
            old(solver.inner()).may_start(task),
            forall|run: Seq<S>| #[trigger]
                reaches(*old(solver.inner()), task, &stop, run) ==> run.last().may_step(task),
        ensures
            r.wf(),
            r.size() == task.size(),
            exists|run: Seq<S>| #[trigger]
                r.records(*old(solver.inner()), task, &stop, run) && run.last() == *final(solver.inner()),
    {
        let ghost frozen = *solver.inner();
        let solver: &mut S = solver.0;
        let first = S::solve_task(Frozen(&mut *solver), task);
        let mut t: T = first.0;
        let mut x: Vec<N> = first.1;
        let ghost mut run: Seq<S> = seq![*solver];
        let mut ts: Vec<T> = Vec::new();
        let mut xs: Vec<Vec<N>> = empty_columns(task.size);
        while ts.len() < usize::MAX && stop.keeps(&t)
            invariant
                task.wf(),
                forall|run: Seq<S>| #[trigger]
                    reaches(frozen, task, &stop, run) ==> run.last().may_step(task),
                frozen.starts(task, &run[0]),
                solver.ready(task),
                sample_of(&*solver) == (t, x@),
                x@.len() == task.size(),
                xs@.len() == task.size(),
                forall|i: int| 0 <= i < xs@.len() ==> (#[trigger] xs@[i])@.len() == ts@.len(),
                run.len() == ts@.len() + 1,
                run.last() == *solver,
                sample_of(&run[0]) == (task.initial_time(), task.initial_conditions()),
                forall|k: int| 0 <= k < ts@.len() ==> #[trigger] follows(task, run, k),
                forall|k: int| 0 <= k < ts@.len() ==> ts@[k] == sample_of(#[trigger] &run[k]).0,
                forall|k: int| 0 <= k < ts@.len() ==> sample_of(#[trigger] &run[k]).1.len() == task.size(),
                forall|k: int, i: int|
                    0 <= k < ts@.len() && 0 <= i < task.size() ==> (#[trigger] xs@[i])@[k]
                        == sample_of(#[trigger] &run[k]).1[i],
                forall|k: int|
                    0 <= k < ts@.len() && comparisons_obey::<T>() ==> stop.retains(
                        sample_of(#[trigger] &run[k]).0,
                    ),
            ensures
                ts@.len() == usize::MAX || (comparisons_obey::<T>() ==> !stop.retains(t)),
            decreases usize::MAX - ts@.len(),
        {
            let ghost before = run;
            assert(reaches(frozen, task, &stop, run));
            ts.push(t);
            append_sample(&mut xs, x.as_slice());
            let reached = solver.next_solution(task);
            t = reached.0;
            x = slice_to_vec(reached.1);
            proof {
                run = before.push(*solver);
                assert forall|k: int| 0 <= k < ts@.len() implies #[trigger] follows(task, run, k) by {
                    if k + 1 < ts@.len() {
                        assert(follows(task, before, k));
                    }
                }
                assert forall|k: int| 0 <= k < ts@.len() implies ts@[k] == sample_of(#[trigger] &run[k]).0 by {
                    assert(run[k] == before[k]);
                }
            }
        }
        let outputs = flatten(&xs, ts.len());
        let r = Solution { time: ts, outputs, size: Ghost(task.size()) };
        proof {
            assert forall|k: int| 0 <= k < r.samples() implies r@[k] == sample_of(#[trigger] &run[k]) by {
                let got = r@[k].1;
                let want = sample_of(&run[k]).1;
                assert forall|i: int| 0 <= i < task.size() implies got[i] == want[i] by {
                    lemma_stripe(r.samples(), r.size(), i as nat);
                    assert(r.component(i)[k] == r.outputs@[r.samples() * i + k]);
                    assert(xs@[i]@[k] == want[i]);
                }
                assert(got =~= want);
            }
            assert(r.records(frozen, task, &stop, run));
        }
        r
    }
}

/// `run` is a way in which `solver` can go through `task` with every sample
/// kept by `stop`: it starts as `solver` starts on the task, and each state
/// follows from the one before by one step. Where the comparisons of `T` obey
/// no specification, any sample counts as kept.
pub open spec fn reaches<S: Solver<T, N>, T: PartialOrd, N>(
    solver: S,
    task: &CauchyTask<T, N>,
    stop: &StopCondition<T>,
    run: Seq<S>,
) -> bool {
    &&& run.len() >= 1
    &&& solver.starts(task, &run[0])
    &&& forall|k: int| 0 <= k < run.len() - 1 ==> #[trigger] follows(task, run, k)
    &&& forall|k: int|
        0 <= k < run.len() && comparisons_obey::<T>() ==> stop.retains(
            sample_of(#[trigger] &run[k]).0,
        )
}

/// The state `k + 1` of `run` follows from the state `k` by one step.
pub open spec fn follows<S: Solver<T, N>, T, N>(
    task: &CauchyTask<T, N>,
    run: Seq<S>,
    k: int,
) -> bool {
    run[k].steps_to(task, &run[k + 1])
}

impl<T, N> vstd::std_specs::core::IndexSpecImpl<usize> for Solution<T, N> {
    open spec fn index_req(&self, index: &usize) -> bool {
        self.wf() && self.has_component(*index as int)
    }
}

impl<T, N> Index<usize> for Solution<T, N> {
    type Output = [N];

    /// The values of the unknown `index` at the samples.
    fn index(&self, index: usize) -> (r: &[N])
        ensures
            r@ == self.component(index as int),
            r@.len() == self.samples(),
    {
        let stripe_size = self.time.len();
        proof {
            lemma_stripe(self.samples(), self.size(), index as nat);
        }
        if stripe_size == 0 || self.outputs.len() == 0 {
            slice_subrange(self.outputs.as_slice(), 0, 0)
        } else {
            slice_subrange(self.outputs.as_slice(), stripe_size * index, stripe_size * (index + 1))
        }
    }
}

/// As many empty columns as there are unknowns.
fn empty_columns<N>(size: usize) -> (columns: Vec<Vec<N>>)
    ensures
        columns@.len() == size,
        forall|i: int| 0 <= i < size ==> (#[trigger] columns@[i])@.len() == 0,
{
    let mut columns: Vec<Vec<N>> = Vec::new();
    let mut c: usize = 0;
    while c < size
        invariant
            c <= size,
            columns@.len() == c,
            forall|i: int| 0 <= i < c ==> (#[trigger] columns@[i])@.len() == 0,
        decreases size - c,
    {
        columns.push(Vec::new());
        c = c + 1;
    }
    columns
}

/// Appends each unknown of `state` to its own column.
fn append_sample<N: Copy>(columns: &mut Vec<Vec<N>>, state: &[N])
    requires
        old(columns)@.len() == state@.len(),
    ensures
        final(columns)@.len() == old(columns)@.len(),
        forall|i: int|
            0 <= i < state@.len() ==> (#[trigger] final(columns)@[i])@ == old(columns)@[i]@.push(
                state@[i],
            ),
{
    let mut i: usize = 0;
    while i < state.len()
        invariant
            i <= state@.len(),
            columns@.len() == state@.len(),
            forall|j: int| 0 <= j < i ==> (#[trigger] columns@[j])@ == old(columns)@[j]@.push(state@[j]),
            forall|j: int| i <= j < columns@.len() ==> (#[trigger] columns@[j])@ == old(columns)@[j]@,
        decreases state@.len() - i,
    {
        columns[i].push(state[i]);
        i = i + 1;
    }
}

/// Lays the columns one after the other.
fn flatten<N: Copy>(columns: &Vec<Vec<N>>, samples: usize) -> (outputs: Vec<N>)
    requires
        forall|i: int| 0 <= i < columns@.len() ==> (#[trigger] columns@[i])@.len() == samples,
    ensures
        outputs@.len() == samples * columns@.len(),
        forall|i: int, k: int|
            0 <= i < columns@.len() && 0 <= k < samples ==> outputs@[samples * i + k]
                == #[trigger] columns@[i]@[k],
{
    let mut outputs: Vec<N> = Vec::new();
    let mut i: usize = 0;
    while i < columns.len()
        invariant
            i <= columns@.len(),
            forall|j: int| 0 <= j < columns@.len() ==> (#[trigger] columns@[j])@.len() == samples,
            outputs@.len() == samples * i,
            forall|j: int, k: int|
                0 <= j < i && 0 <= k < samples ==> outputs@[samples * j + k]
                    == #[trigger] columns@[j]@[k],
        decreases columns@.len() - i,
    {
        let column = &columns[i];
        let mut k: usize = 0;
        while k < samples
            invariant
                i < columns@.len(),
                k <= samples,
                column@.len() == samples,
                column@ == columns@[i as int]@,
                outputs@.len() == samples * i + k,
                forall|j: int, m: int|
                    0 <= j < i && 0 <= m < samples ==> outputs@[samples * j + m]
                        == #[trigger] columns@[j]@[m],
                forall|m: int| 0 <= m < k ==> outputs@[samples * i + m] == #[trigger] column@[m],
            decreases samples - k,
        {
            let ghost before = outputs@;
            outputs.push(column[k]);
            proof {
                assert forall|j: int, m: int| 0 <= j < i && 0 <= m < samples implies outputs@[samples
                    * j + m] == #[trigger] columns@[j]@[m] by {
                    assert(samples * j + samples <= samples * i) by (nonlinear_arith)
                        requires
                            0 <= j < i,
                            0 <= samples,
                    ;
                    assert(outputs@[samples * j + m] == before[samples * j + m]);
                }
            }
            k = k + 1;
        }
        proof {
            assert(samples * (i + 1) == samples * i + samples) by (nonlinear_arith);
        }
        i = i + 1;
    }
    outputs
}

/// Where the comparisons of the time obey their specification, every sample of
/// a recorded run is at or before the maximum, and the sample that the run
/// reached next is past it, unless the solution is as long as a list can be.
pub proof fn lemma_kept_up_to_maximum<S: Solver<T, N>, T: PartialOrd, N>(
    solution: Solution<T, N>,
    solver: S,
    task: &CauchyTask<T, N>,
    maximum: T,
    run: Seq<S>,
)
    requires
        comparisons_obey::<T>(),
        solution.records(solver, task, &StopCondition::Timed { maximum }, run),
    ensures
        forall|k: int|
            0 <= k < solution.samples() ==> at_most((#[trigger] solution@[k]).0, maximum),
        solution.samples() < usize::MAX ==> !at_most(sample_of(&run.last()).0, maximum),
{
    assert forall|k: int| 0 <= k < solution.samples() implies at_most(
        (#[trigger] solution@[k]).0,
        maximum,
    ) by {
        assert(solution@[k] == sample_of(&run[k]));
    }
}

/// The values of one unknown are as many as the samples, and each is that
/// unknown in the sample of its place.
pub proof fn lemma_component<T, N>(solution: Solution<T, N>, i: int, k: int)
    requires
        solution.wf(),
        0 <= i < solution.size(),
        0 <= k < solution.samples(),
    ensures
        solution.component(i).len() == solution.samples(),
        solution.times().len() == solution.samples(),
        solution@.len() == solution.samples(),
        solution@[k].0 == solution.times()[k],
        solution@[k].1.len() == solution.size(),
        solution@[k].1[i] == solution.component(i)[k],
{
    lemma_stripe(solution.samples(), solution.size(), i as nat);
}

/// Where the values of one unknown lie among those of all.
pub proof fn lemma_stripe(samples: nat, size: nat, i: nat)
    requires
        samples == 0 || i < size,
    ensures
        0 <= samples * i <= samples * (i + 1) <= samples * size,
        samples * (i + 1) - samples * i == samples,
        samples > 0 ==> i + 1 <= size <= samples * size,
{
    assert(samples * i <= samples * (i + 1) <= samples * size && samples * (i + 1) - samples * i
        == samples && (samples > 0 ==> size <= samples * size)) by (nonlinear_arith)
        requires
            samples == 0 || i < size,
    ;
}

} // verus!
