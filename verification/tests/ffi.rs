use cauchy::ffi::{
    eval_next_symbol, prepare_symbol, symbol_name, Call, CanSolve, ExternalSolver, Session, Stage,
    StepError, EVAL_NEXT, PREPARE,
};
use cauchy::solution::{Solution, StopCondition};
use cauchy::solver::Solver;
use cauchy::task::{f, CauchyTask};
use std::cell::Cell;
use std::rc::Rc;

struct Doubles;

impl CanSolve<f64, f64> for Doubles {
    const SUFFIX: &'static [u8] = b"f64_f64";
}

#[test]
fn bases_spell_the_routine_names() {
    assert_eq!(&PREPARE, b"solver_prepare_");
    assert_eq!(&EVAL_NEXT, b"solver_eval_next_");
}

#[test]
fn symbol_name_ends_in_a_zero_byte() {
    assert_eq!(symbol_name(b"ab", b"cd"), b"abcd\0".to_vec());
    assert_eq!(symbol_name(b"", b""), vec![0u8]);
}

#[test]
fn symbols_carry_the_suffix_of_the_pair() {
    assert_eq!(prepare_symbol::<Doubles, f64, f64>(), b"solver_prepare_f64_f64\0".to_vec());
    assert_eq!(eval_next_symbol::<Doubles, f64, f64>(), b"solver_eval_next_f64_f64\0".to_vec());
}

#[test]
fn view_shows_the_task() {
    let task = CauchyTask::new(
        [f(|_t: f64, y: &[f64; 2]| y[0]), f(|_t: f64, y: &[f64; 2]| y[1])],
        0.5,
        [1.0, 2.0],
    );
    let view = task.as_ffi();
    assert_eq!(view.size, 2);
    assert_eq!(view.initial_time, 0.5);
    assert_eq!(view.initial_conditions, &[1.0, 2.0]);
    assert_eq!(view.derivatives.len(), 2);
    assert_eq!(view.derivatives[1].eval(0.0, &[3.0, 4.0]), 4.0);
}

/// A module that counts how often each of its routines is called.
struct Stub {
    prepared: usize,
    stepped: usize,
    time: f64,
}

impl Stub {
    fn call(&mut self, call: Call) -> Option<(f64, Vec<f64>)> {
        match call {
            Call::Prepare => {
                self.prepared += 1;
                None
            }
            Call::EvalNext => {
                assert_eq!(self.prepared, 1);
                self.stepped += 1;
                self.time += 1.0;
                Some((self.time, vec![self.time, -self.time]))
            }
        }
    }
}

#[test]
fn module_is_prepared_once_and_called_once_for_each_step() {
    let mut stub = Stub { prepared: 0, stepped: 0, time: 0.0 };
    let mut session = Session::new(2);
    assert_eq!(session.stage(), Stage::Fresh);
    let call = session.begin();
    assert_eq!(call, Call::Prepare);
    assert!(stub.call(call).is_none());
    assert_eq!((stub.prepared, stub.stepped), (1, 0));
    let mut emitted = 0;
    while emitted < 5 {
        assert_eq!(session.stage(), Stage::Ready);
        let call = session.request();
        assert_eq!(call, Call::EvalNext);
        let sample = session.accept(stub.call(call));
        emitted += 1;
        assert_eq!(sample, Ok((emitted as f64, vec![emitted as f64, -(emitted as f64)])));
        assert_eq!((stub.prepared, stub.stepped), (1, emitted));
    }
}

#[test]
fn absent_answer_fails_the_run() {
    let mut session = Session::new(2);
    session.begin();
    session.request();
    assert_eq!(session.accept::<f64, f64>(None), Err(StepError::Null));
    assert_eq!(session.stage(), Stage::Failed);
}

#[test]
fn answer_of_the_wrong_length_fails_the_run() {
    let mut session = Session::new(2);
    session.begin();
    session.request();
    assert_eq!(
        session.accept(Some((1.0, vec![1.0, 2.0, 3.0]))),
        Err(StepError::Length { expected: 2, found: 3 })
    );
    assert_eq!(session.stage(), Stage::Failed);
}

fn two_unknowns() -> CauchyTask<f64, f64> {
    CauchyTask::new(
        [f(|_t: f64, y: &[f64; 2]| y[0]), f(|_t: f64, y: &[f64; 2]| y[1])],
        0.0,
        [5.0, 6.0],
    )
}

/// The two routines of a module that counts how often each is called and
/// that sees which task it is shown.
fn counting_routines(
    prepared: &Rc<Cell<usize>>,
    stepped: &Rc<Cell<usize>>,
) -> (
    impl Fn(&CauchyTask<f64, f64>),
    impl Fn(&CauchyTask<f64, f64>) -> Option<(f64, Vec<f64>)>,
) {
    let (p, s, q, stepped) = (prepared.clone(), stepped.clone(), prepared.clone(), stepped.clone());
    (
        move |task: &CauchyTask<f64, f64>| {
            let view = task.as_ffi();
            assert_eq!((view.size, view.initial_time), (2, 0.0));
            assert_eq!(view.initial_conditions, &[5.0, 6.0]);
            assert_eq!(s.get(), 0);
            p.set(p.get() + 1);
        },
        move |task: &CauchyTask<f64, f64>| {
            assert_eq!(task.as_ffi().size, 2);
            assert_eq!(q.get(), 1);
            stepped.set(stepped.get() + 1);
            let time = stepped.get() as f64;
            Some((time, vec![time, -time]))
        },
    )
}

#[test]
fn external_solver_prepares_once_and_gives_the_initial_sample() {
    let (prepared, stepped) = (Rc::new(Cell::new(0)), Rc::new(Cell::new(0)));
    let (prepare, next) = counting_routines(&prepared, &stepped);
    let task = two_unknowns();
    let mut solver = ExternalSolver::new(prepare, next);
    let first = Solver::solve_task(solver.as_mut(), &task);
    assert_eq!(first, (0.0, vec![5.0, 6.0]));
    assert_eq!((prepared.get(), stepped.get()), (1, 0));
}

#[test]
fn external_solver_steps_once_for_each_later_sample() {
    let (prepared, stepped) = (Rc::new(Cell::new(0)), Rc::new(Cell::new(0)));
    let (prepare, next) = counting_routines(&prepared, &stepped);
    let task = two_unknowns();
    let mut solver = ExternalSolver::new(prepare, next);
    Solver::solve_task(solver.as_mut(), &task);
    let running = solver.as_mut().init(|_| {});
    for pulled in 1..=6 {
        let (time, state) = running.next_solution(&task);
        assert_eq!((time, state), (pulled as f64, &[pulled as f64, -(pulled as f64)][..]));
        assert_eq!((prepared.get(), stepped.get()), (1, pulled));
    }
}

#[test]
fn external_solver_is_run_to_the_maximum() {
    let (prepared, stepped) = (Rc::new(Cell::new(0)), Rc::new(Cell::new(0)));
    let (prepare, next) = counting_routines(&prepared, &stepped);
    let task = two_unknowns();
    let mut solver = ExternalSolver::new(prepare, next);
    let solution = Solution::compute(solver.as_mut(), &task, StopCondition::Timed { maximum: 3.0 });
    assert_eq!(solution.time(), &[0.0, 1.0, 2.0, 3.0]);
    assert_eq!(&solution[0], &[5.0, 1.0, 2.0, 3.0]);
    assert_eq!(&solution[1], &[6.0, -1.0, -2.0, -3.0]);
    assert_eq!((prepared.get(), stepped.get()), (1, 4));
}
