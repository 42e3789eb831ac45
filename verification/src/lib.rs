//! Numerical integration of systems of ordinary differential equations given
//! with their initial values.
//!
//! A [`task::CauchyTask`] holds a system, a [`solver::Solver`] advances it one
//! step at a time, and a [`solution::Solution`] keeps the samples of one run.
//! State and time are any number types with the arithmetic that a step needs;
//! [`interval::Interval`] is one that carries bounds.

use vstd::prelude::*;

pub mod euler_laws;
pub mod extremes;
pub mod ffi;
pub mod interval;
pub mod interval_laws;
pub mod order;
pub mod solution;
pub mod solver;
pub mod task;

verus! {

/// A value that is not yet ready for use: a solver that has not been started
/// on a task.
pub struct Frozen<T>(pub(crate) T);

impl<T> Frozen<T> {
    /// The value inside.
    pub closed spec fn inner(self) -> T {
        self.0
    }

    /// Wraps a value that is yet to be made ready.
    pub fn new(value: T) -> (r: Self)
        ensures
            r.inner() == value,
    {
        Frozen(value)
    }

    /// Borrows the value inside, still frozen.
    pub fn as_mut(&mut self) -> (r: Frozen<&mut T>)
        ensures
            *r.inner() == old(self).inner(),
            final(self).inner() == *final(r.inner()),
    {
        Frozen(&mut self.0)
    }

    /// Makes the value ready by `f` and hands it out.
    pub fn init<F: FnOnce(&mut T)>(self, f: F) -> (r: T)
        requires
            forall|x: &mut T| *x == self.inner() ==> call_requires(f, (x,)),
        ensures
            exists|x: &mut T| *x == self.inner() && call_ensures(f, (x,), ()) && r == *final(x),
    {
        let mut this = self;
        f(&mut this.0);
        this.0
    }
}

} // verus!
