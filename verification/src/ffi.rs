//! Solvers that live in a loaded module, and the convention by which they are
//! called.
//!
//! A module exports two routines for each pair of a time type and a state
//! type that it supports. The first is called once, before any step; the
//! second is called once for each step and hands out the time and the
//! unknowns that it has reached. This file holds what of that does not depend
//! on how a module is loaded: the names of the routines, the view of a task
//! that both routines are given, the order of the calls, and the solver that
//! makes them through two closures.

use crate::solution::follows;
use crate::solver::Solver;
use crate::task::{CauchyTask, Function};
use crate::Frozen;
use vstd::prelude::*;
use vstd::slice::slice_to_vec;

verus! {

/// The pairs of a time type and a state type for which a module exports its
/// routines, each with the suffix of the routines' names.
pub trait CanSolve<T, N> {
    const SUFFIX: &'static [u8];
}

/// `solver_prepare_`: what the name of the first routine begins with.
pub const PREPARE: [u8; 15] = [115, 111, 108, 118, 101, 114, 95, 112, 114, 101, 112, 97, 114, 101, 95];

/// `solver_eval_next_`: what the name of the second routine begins with.
pub const EVAL_NEXT: [u8; 17] = [
    115, 111, 108, 118, 101, 114, 95, 101, 118, 97, 108, 95, 110, 101, 120, 116, 95,
];

/// The name under which a module exports a routine: `base`, then `suffix`,
/// then a zero byte.
pub open spec fn exported_name(base: Seq<u8>, suffix: Seq<u8>) -> Seq<u8> {
    base + suffix + seq![0u8]
}

/// Builds the name under which a module exports a routine.
pub fn symbol_name(base: &[u8], suffix: &[u8]) -> (name: Vec<u8>)
    ensures
        name@ == exported_name(base@, suffix@),
{
    let mut buffer: Vec<u8> = Vec::new();
    buffer.extend_from_slice(base);
    buffer.extend_from_slice(suffix);
    buffer.push(0);
    assert(buffer@ =~= exported_name(base@, suffix@));
    buffer
}

/// The name of the routine that a module exports for `S` to be called once
/// before any step.
pub fn prepare_symbol<S: CanSolve<T, N>, T, N>() -> (name: Vec<u8>)
    ensures
        name@ == exported_name(PREPARE@, S::SUFFIX@),
{
    symbol_name(PREPARE.as_slice(), S::SUFFIX)
}

/// The name of the routine that a module exports for `S` to be called for
/// each step.
pub fn eval_next_symbol<S: CanSolve<T, N>, T, N>() -> (name: Vec<u8>)
    ensures
        name@ == exported_name(EVAL_NEXT@, S::SUFFIX@),
{
    symbol_name(EVAL_NEXT.as_slice(), S::SUFFIX)
}

/// What a routine of a module is shown of a task. Nothing in it is handed
/// over: the routine may read it until it returns.
#[verifier::reject_recursive_types(T)]
#[verifier::reject_recursive_types(N)]
pub struct CauchyTaskRef<'a, T, N> {
    pub size: usize,
    pub derivatives: &'a [Function<T, N>],
    pub initial_conditions: &'a [N],
    pub initial_time: T,
}

impl<T: Copy, N> CauchyTask<T, N> {
    /// The task as a routine of a module is shown it.
    pub fn as_ffi(&self) -> (view: CauchyTaskRef<'_, T, N>)
        ensures
            view.size == self.size(),
            view.derivatives@ == self.derivatives(),
            view.initial_conditions@ == self.initial_conditions(),
            view.initial_time == self.initial_time(),
    {
        CauchyTaskRef {
            size: self.size,
            derivatives: self.derivatives.as_slice(),
            initial_conditions: self.initial_conditions.as_slice(),
            initial_time: self.initial_time,
        }
    }
}

/// A call into a module.
#[derive(Clone, Copy, Debug, PartialEq, Eq, Structural)]
pub enum Call {
    /// The routine that is called once, before any step.
    Prepare,
    /// The routine that is called for each step.
    EvalNext,
}

/// Where a run of a module's solver stands.
#[derive(Clone, Copy, Debug, PartialEq, Eq, Structural)]
pub enum Stage {
    /// No routine has been called.
    Fresh,
    /// The module is prepared, and every step asked for has been answered.
    Ready,
    /// A step has been asked for and its answer is awaited.
    Awaiting,
    /// The module gave an answer that cannot be used. The run is over.
    Failed,
}

/// Why an answer of a module cannot be used.
#[derive(Clone, Copy, Debug, PartialEq, Eq, Structural)]
pub enum StepError {
    /// The module handed out no unknowns.
    Null,
    /// The module handed out `found` unknowns where the task has `expected`.
    Length { expected: usize, found: usize },
}

/// The order of the calls into a module during one run, and what becomes of
/// the module's answers.
pub struct Session {
    size: usize,
    stage: Stage,
    calls: Ghost<Seq<Call>>,
    emitted: Ghost<nat>,
}

/// The calls of a run in which `steps` steps were asked for.
pub open spec fn calls_after(steps: nat) -> Seq<Call> {
    seq![Call::Prepare] + Seq::new(steps, |k: int| Call::EvalNext)
}

impl Session {
    /// The number of unknowns of the task.
    pub closed spec fn size(&self) -> usize {
        self.size
    }

    /// Where the run stands.
    pub closed spec fn spec_stage(&self) -> Stage {
        self.stage
    }

    /// The calls that were asked for so far, in order.
    pub closed spec fn calls(&self) -> Seq<Call> {
        self.calls@
    }

    /// The number of samples that steps have given so far. The initial sample
    /// is not among them.
    pub closed spec fn emitted(&self) -> nat {
        self.emitted@
    }

    /// The calls are those of a run that stands where this one does: none at
    /// first, then one `Prepare`, then one `EvalNext` for each sample that a
    /// step has given and for the step that is awaited or that failed.
    pub closed spec fn wf(&self) -> bool {
        match self.stage {
            Stage::Fresh => self.calls@ == Seq::<Call>::empty() && self.emitted@ == 0,
            Stage::Ready => self.calls@ == calls_after(self.emitted@),
            Stage::Awaiting | Stage::Failed => self.calls@ == calls_after(self.emitted@ + 1),
        }
    }

    /// A run for a task with `size` unknowns, before any call.
    pub fn new(size: usize) -> (r: Self)
        ensures
            r.wf(),
            r.size() == size,
            r.spec_stage() == Stage::Fresh,
            r.calls() == Seq::<Call>::empty(),
            r.emitted() == 0,
    {
        Session { size, stage: Stage::Fresh, calls: Ghost(Seq::empty()), emitted: Ghost(0) }
    }

    /// Where the run stands.
    #[verifier::when_used_as_spec(spec_stage)]
    pub fn stage(&self) -> (r: Stage)
        ensures
            r == self.spec_stage(),
    {
        self.stage
    }

    /// Starts the run: the module is to be prepared now, and the first sample
    /// is the task's initial one.
    pub fn begin(&mut self) -> (call: Call)
        requires
            old(self).wf(),
            old(self).stage() == Stage::Fresh,
        ensures
            call == Call::Prepare,
            final(self).wf(),
            final(self).stage() == Stage::Ready,
            final(self).size() == old(self).size(),
            final(self).calls() == old(self).calls().push(call),
            final(self).emitted() == 0,
    {
        self.stage = Stage::Ready;
        proof {
            self.calls@ = self.calls@.push(Call::Prepare);
            assert(self.calls@ =~= calls_after(0));
        }
        Call::Prepare
    }

    /// Asks for one step: the module is to be called for it now.
    pub fn request(&mut self) -> (call: Call)
        requires
            old(self).wf(),
            old(self).stage() == Stage::Ready,
        ensures
            call == Call::EvalNext,
            final(self).wf(),
            final(self).stage() == Stage::Awaiting,
            final(self).size() == old(self).size(),
            final(self).calls() == old(self).calls().push(call),
            final(self).emitted() == old(self).emitted(),
    {
        self.stage = Stage::Awaiting;
        proof {
            self.calls@ = self.calls@.push(Call::EvalNext);
            assert(self.calls@ =~= calls_after(self.emitted@ + 1));
        }
        Call::EvalNext
    }

    /// Takes the module's answer to the step that is awaited: the time that it
    /// wrote and the unknowns that it handed out, or nothing where it handed
    /// out none. The answer becomes the next sample if it holds as many
    /// unknowns as the task has; else the run has failed.
    pub fn accept<T, N>(&mut self, reply: Option<(T, Vec<N>)>) -> (r: Result<(T, Vec<N>), StepError>)
        requires
            old(self).wf(),
            old(self).stage() == Stage::Awaiting,
        ensures
            final(self).wf(),
            final(self).size() == old(self).size(),
            final(self).calls() == old(self).calls(),
            r == answer(old(self).size(), reply),
            final(self).stage() == (if r is Ok {
                Stage::Ready
            } else {
                Stage::Failed
            }),
            final(self).emitted() == old(self).emitted() + (if r is Ok {
                1nat
            } else {
                0nat
            }),
    {
        match reply {
            None => {
                self.stage = Stage::Failed;
                Err(StepError::Null)
            },
            Some((time, unknowns)) => {
                if unknowns.len() == self.size {
                    self.stage = Stage::Ready;
                    proof {
                        self.emitted@ = self.emitted@ + 1;
                    }
                    Ok((time, unknowns))
                } else {
                    self.stage = Stage::Failed;
                    Err(StepError::Length { expected: self.size, found: unknowns.len() })
                }
            },
        }
    }
}

/// What becomes of a module's answer for a task with `size` unknowns.
pub open spec fn answer<T, N>(size: usize, reply: Option<(T, Vec<N>)>) -> Result<
    (T, Vec<N>),
    StepError,
> {
    match reply {
        None => Err(StepError::Null),
        Some((time, unknowns)) => if unknowns@.len() == size {
            Ok((time, unknowns))
        } else {
            Err(StepError::Length { expected: size, found: unknowns@.len() as usize })
        },
    }
}

/// In every run the module is prepared exactly once, before any step, and is
/// called exactly once for each sample that a step has given; a step that is
/// awaited or that failed has its one call too.
pub proof fn lemma_call_order(session: Session)
    requires
        session.wf(),
    ensures
        session.stage() == Stage::Fresh <==> session.calls().len() == 0,
        session.calls().len() > 0 ==> session.calls()[0] == Call::Prepare,
        forall|k: int| 1 <= k < session.calls().len() ==> session.calls()[k] == Call::EvalNext,
        session.stage() == Stage::Ready ==> session.calls().len() == 1 + session.emitted(),
        session.stage() == Stage::Awaiting || session.stage() == Stage::Failed
            ==> session.calls().len() == 2 + session.emitted(),
{
}

/// A solver whose steps are taken by the two routines of a module: `prepare`
/// is called once when a run starts, and `next` once for each step, to hand
/// out the time and the unknowns that it has reached, if any.
pub struct ExternalSolver<P, E, T, N> {
    prepare: P,
    next: E,
    session: Session,
    current: Option<(T, Vec<N>)>,
}

impl<P, E, T, N> ExternalSolver<P, E, T, N> where
    P: Fn(&CauchyTask<T, N>),
    E: Fn(&CauchyTask<T, N>) -> Option<(T, Vec<N>)>,
 {
    /// The two routines.
    pub closed spec fn routines(&self) -> (P, E) {
        (self.prepare, self.next)
    }

    /// The order of the calls of the run so far.
    pub closed spec fn session(&self) -> Session {
        self.session
    }

    /// The sample that the solver has reached, once it was started.
    pub closed spec fn current(&self) -> Option<(T, Vec<N>)> {
        self.current
    }

    /// The first routine may be called for `task`.
    pub open spec fn prepare_admits(&self, task: &CauchyTask<T, N>) -> bool {
        call_requires(self.routines().0, (task,))
    }

    /// The second routine may be called for `task`, and whatever it answers
    /// holds as many unknowns as the task has.
    pub open spec fn next_admits(&self, task: &CauchyTask<T, N>) -> bool {
        &&& call_requires(self.routines().1, (task,))
        &&& forall|reply: Option<(T, Vec<N>)>| #[trigger]
            call_ensures(self.routines().1, (task,), reply) ==> answer(self.session().size(), reply)
                is Ok
    }

    /// A solver over the two routines of a module, yet to be started on a
    /// task.
    pub fn new(prepare: P, next: E) -> (r: Frozen<Self>)
        ensures
            r.inner().routines() == (prepare, next),
            r.inner().session().wf(),
            r.inner().session().stage() == Stage::Fresh,
            r.inner().current() is None,
    {
        Frozen(ExternalSolver { prepare, next, session: Session::new(0), current: None })
    }
}

impl<P, E, T, N> Solver<T, N> for ExternalSolver<P, E, T, N> where
    P: Fn(&CauchyTask<T, N>),
    E: Fn(&CauchyTask<T, N>) -> Option<(T, Vec<N>)>,
    T: Copy,
    N: Copy,
 {
    open spec fn sample(&self) -> (T, Vec<N>) {
        self.current().unwrap()
    }

    open spec fn ready(&self, task: &CauchyTask<T, N>) -> bool {
        &&& self.session().wf()
        &&& self.session().stage() == Stage::Ready
        &&& self.session().size() == task.size()
        &&& self.current() is Some
        &&& self.sample().1@.len() == task.size()
    }

    open spec fn may_start(&self, task: &CauchyTask<T, N>) -> bool {
        self.prepare_admits(task)
    }

    open spec fn may_step(&self, task: &CauchyTask<T, N>) -> bool {
        self.next_admits(task)
    }

    open spec fn starts(&self, task: &CauchyTask<T, N>, started: &Self) -> bool {
        &&& started.routines() == self.routines()
        &&& started.session().calls() == seq![Call::Prepare]
        &&& started.session().emitted() == 0
    }

    open spec fn steps_to(&self, task: &CauchyTask<T, N>, next: &Self) -> bool {
        &&& next.routines() == self.routines()
        &&& next.session().calls() == self.session().calls().push(Call::EvalNext)
        &&& next.session().emitted() == self.session().emitted() + 1
        &&& call_ensures(self.routines().1, (task,), next.current())
    }

    fn solve_task(this: Frozen<&mut Self>, task: &CauchyTask<T, N>) -> (first: (T, Vec<N>)) {
        let solver = this.0;
        solver.session = Session::new(task.size);
        solver.session.begin();
        (solver.prepare)(task);
        solver.current = Some(
            (task.initial_time, slice_to_vec(task.initial_conditions.as_slice())),
        );
        (task.initial_time, slice_to_vec(task.initial_conditions.as_slice()))
    }

    fn next_solution(&mut self, task: &CauchyTask<T, N>) -> (reached: (T, &[N])) {
        self.session.request();
        let reply = (self.next)(task);
        // A routine that nothing has verified may answer what cannot be used:
        // the run is stopped here.
        match self.session.accept(reply) {
            Ok(sample) => {
                self.current = Some(sample);
            },
            Err(_) => {
                vstd::pervasive::unreached::<()>();
            },
        }
        match &self.current {
            Some((time, state)) => (*time, state.as_slice()),
            None => vstd::pervasive::unreached(),
        }
    }
}

/// In every run of an external solver, the module is prepared exactly once,
/// before any step, and is asked for a step exactly once for each sample after
/// the initial one: the state `k` of a run has seen one `Prepare` and then `k`
/// times `EvalNext`.
pub proof fn lemma_external_calls<P, E, T, N>(
    solver: ExternalSolver<P, E, T, N>,
    task: &CauchyTask<T, N>,
    run: Seq<ExternalSolver<P, E, T, N>>,
    k: int,
) where
    P: Fn(&CauchyTask<T, N>),
    E: Fn(&CauchyTask<T, N>) -> Option<(T, Vec<N>)>,
    T: Copy,
    N: Copy,

    requires
        0 <= k < run.len(),
        solver.starts(task, &run[0]),
        forall|j: int| 0 <= j < run.len() - 1 ==> #[trigger] follows(task, run, j),
    ensures
        run[k].routines() == solver.routines(),
        run[k].session().calls() == calls_after(k as nat),
        run[k].session().emitted() == k,
    decreases k,
{
    if k == 0 {
        assert(run[0].session().calls() =~= calls_after(0));
    } else {
        lemma_external_calls(solver, task, run, k - 1);
        assert(follows(task, run, k - 1));
        assert(run[k].session().calls() =~= calls_after(k as nat));
    }
}

} // verus!
