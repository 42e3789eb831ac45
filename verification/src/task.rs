//! The initial-value problem and the functions that give its derivatives.

use std::fmt::Debug;
use vstd::prelude::*;

verus! {

/// What `<[T]>::first_chunk` returns, as its documentation gives it: the first
/// `COUNT` items of the slice as an array, or nothing where the slice is
/// shorter than that.
pub assume_specification<Member, const COUNT: usize>[ <[Member]>::first_chunk::<COUNT> ](
    slice: &[Member],
) -> (r: Option<&[Member; COUNT]>)
    ensures
        slice@.len() >= COUNT ==> r.is_some() && r.unwrap()@ == slice@.subrange(0, COUNT as int),
        slice@.len() < COUNT ==> r.is_none(),
;

/// What a derivative can be asked and what it answers.
trait Derivative<T, N> {
    /// The number of unknowns that the derivative reads.
    spec fn arity(&self) -> nat;

    /// The derivative may be evaluated at `time` and `state`.
    spec fn admits(&self, time: T, state: Seq<N>) -> bool;

    /// `value` is an answer of the derivative at `time` and `state`.
    spec fn yields(&self, time: T, state: Seq<N>, value: N) -> bool;

    fn call(&self, time: T, state: &[N]) -> (value: N)
        requires
            state@.len() == self.arity(),
            self.admits(time, state@),
        ensures
            self.yields(time, state@, value),
    ;
}

/// A closure over exactly `S` unknowns.
struct Fixed<F, const S: usize> {
    closure: F,
}

impl<T, N, F: Fn(T, &[N; S]) -> N, const S: usize> Derivative<T, N> for Fixed<F, S> {
    spec fn arity(&self) -> nat {
        S as nat
    }

    spec fn admits(&self, time: T, state: Seq<N>) -> bool {
        forall|unknowns: &[N; S]| unknowns@ == state ==> call_requires(self.closure, (time, unknowns))
    }

    spec fn yields(&self, time: T, state: Seq<N>, value: N) -> bool {
        exists|unknowns: &[N; S]|
            unknowns@ == state && call_ensures(self.closure, (time, unknowns), value)
    }

    fn call(&self, time: T, state: &[N]) -> (value: N) {
        // A caller that nothing has verified may hand in a state of another
        // length: it is stopped here.
        match state.first_chunk::<S>() {
            Some(unknowns) if state.len() == S => {
                assert(unknowns@ =~= state@);
                (self.closure)(time, unknowns)
            },
            _ => vstd::pervasive::unreached(),
        }
    }
}

/// One equation of a system: the derivative of one unknown as a function of
/// the time and of all the unknowns.
#[verifier::reject_recursive_types(T)]
#[verifier::reject_recursive_types(N)]
pub struct Function<T, N> {
    inner: Box<dyn Derivative<T, N>>,
}

impl<T, N> Function<T, N> {
    /// The number of unknowns that the function reads.
    pub closed spec fn arity(&self) -> nat {
        self.inner.arity()
    }

    /// The function may be evaluated at `time` and `state`.
    pub closed spec fn admits(&self, time: T, state: Seq<N>) -> bool {
        self.inner.admits(time, state)
    }

    /// `value` is an answer of the function at `time` and `state`.
    pub closed spec fn yields(&self, time: T, state: Seq<N>, value: N) -> bool {
        self.inner.yields(time, state, value)
    }

    /// Makes a closure over `S` unknowns into one equation of a system.
    pub fn new<F, const S: usize>(f: F) -> (r: Self) where
        F: Fn(T, &[N; S]) -> N + 'static,
        N: Copy,

        ensures
            r.arity() == S,
            forall|time: T, state: Seq<N>| #[trigger]
                r.admits(time, state) <==> (forall|unknowns: &[N; S]|
                    unknowns@ == state ==> call_requires(f, (time, unknowns))),
            forall|time: T, state: Seq<N>, value: N| #[trigger]
                r.yields(time, state, value) <==> (exists|unknowns: &[N; S]|
                    unknowns@ == state && call_ensures(f, (time, unknowns), value)),
    {
        Function { inner: Box::new(Fixed::<F, S> { closure: f }) }
    }

    /// The derivative at `time` and at the unknowns `input`.
    pub fn eval(&self, time: T, input: &[N]) -> (value: N)
        requires
            input@.len() == self.arity(),
            self.admits(time, input@),
        ensures
            self.yields(time, input@, value),
    {
        self.inner.call(time, input)
    }
}

/// Calls `Vec::from` on an array. The contract claims what the standard
/// library documents of that conversion: the vector holds the array's items in
/// the array's order.
#[verifier::external_body]
fn vec_of<E, const K: usize>(items: [E; K]) -> (r: Vec<E>)
    ensures
        r@ == items@,
{
    Vec::from(items)
}

/// The system `y_i' = f_i(t, y_1, .., y_n)` with `y_i(t_0) = y_0i`.
///
/// The functions `f_i` are `derivatives`, the values `y_0i` are
/// `initial_conditions`, and `t_0` is `initial_time`.
#[verifier::reject_recursive_types(T)]
#[verifier::reject_recursive_types(N)]
pub struct CauchyTask<T, N> {
    pub(crate) size: usize,
    pub(crate) initial_conditions: Vec<N>,
    pub(crate) initial_time: T,
    pub(crate) derivatives: Vec<Function<T, N>>,
}

impl<T, N> CauchyTask<T, N> {
    /// The number of equations, which is the number of unknowns.
    pub open(crate) spec fn size(&self) -> nat {
        self.size as nat
    }

    /// The time at which the unknowns are given.
    pub open(crate) spec fn initial_time(&self) -> T {
        self.initial_time
    }

    /// The unknowns at the initial time.
    pub open(crate) spec fn initial_conditions(&self) -> Seq<N> {
        self.initial_conditions@
    }

    /// The derivatives of the unknowns, in the order of the unknowns.
    pub open(crate) spec fn derivatives(&self) -> Seq<Function<T, N>> {
        self.derivatives@
    }

    /// There is one derivative and one initial value for each unknown, and
    /// each derivative reads all the unknowns.
    pub open spec fn wf(&self) -> bool {
        &&& self.derivatives().len() == self.size()
        &&& self.initial_conditions().len() == self.size()
        &&& forall|i: int|
            0 <= i < self.size() ==> (#[trigger] self.derivatives()[i]).arity() == self.size()
    }

    /// The system of the `S` equations `derivatives` that starts at
    /// `initial_time` from `initial_conditions`.
    pub fn new<const S: usize>(
        derivatives: [Function<T, N>; S],
        initial_time: T,
        initial_conditions: [N; S],
    ) -> (r: Self) where N: Copy + PartialEq + Debug + 'static
        requires
            forall|i: int| 0 <= i < S ==> (#[trigger] derivatives@[i]).arity() == S,
        ensures
            r.wf(),
            r.size() == S,
            r.initial_time() == initial_time,
            r.initial_conditions() == initial_conditions@,
            r.derivatives() == derivatives@,
    {
        Self {
            size: S,
            derivatives: vec_of(derivatives),
            initial_conditions: vec_of(initial_conditions),
            initial_time,
        }
    }
}

/// Makes a closure over `S` unknowns into one equation of a system.
pub fn f<T, N, F, const S: usize>(value: F) -> (r: Function<T, N>) where
    F: Fn(T, &[N; S]) -> N + 'static,
    N: Copy,

    ensures
        r.arity() == S,
        forall|time: T, state: Seq<N>| #[trigger]
            r.admits(time, state) <==> (forall|unknowns: &[N; S]|
                unknowns@ == state ==> call_requires(value, (time, unknowns))),
        forall|time: T, state: Seq<N>, out: N| #[trigger]
            r.yields(time, state, out) <==> (exists|unknowns: &[N; S]|
                unknowns@ == state && call_ensures(value, (time, unknowns), out)),
{
    Function::new(value)
}

} // verus!
