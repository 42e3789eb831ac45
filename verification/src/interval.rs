//! Closed intervals and their arithmetic.

use crate::extremes::{
    bounds_of, cartesian_pairs, least_and_greatest, lemma_pairs_of_two, Extremes,
};
use crate::order::{at_most, strictly_below};
use std::fmt::Display;
use std::ops::{Add, Div, Mul, Neg, Sub};
use vstd::prelude::*;
use vstd::string::{to_string_from_display_ensures, StringExecFns};
use vstd::std_specs::ops::{AddSpec, DivSpec, MulSpec, NegSpec, SubSpec};

verus! {

/// The closed interval from `start()` to `end()`.
#[derive(Debug, Default, Hash, Clone, Copy, Ord, PartialOrd, Eq, PartialEq)]
pub struct Interval<T>(pub T, pub T);

impl<T> Interval<T> {
    /// The interval from `start` to `end`.
    pub fn new(start: T, end: T) -> (r: Self)
        ensures
            r == Interval(start, end),
    {
        Self(start, end)
    }

    /// The start and the end.
    pub fn into_inner(self) -> (r: (T, T))
        ensures
            r == (self.0, self.1),
    {
        (self.0, self.1)
    }

    /// The lower end.
    pub fn start(self) -> (r: T)
        ensures
            r == self.0,
    {
        self.0
    }

    /// The upper end.
    pub fn end(self) -> (r: T)
        ensures
            r == self.1,
    {
        self.1
    }
}

impl<T: PartialOrd> Interval<T> {
    /// The start is not above the end.
    pub open spec fn wf(self) -> bool {
        at_most(self.0, self.1)
    }

    /// `value` is a member: it lies neither below the start nor above the end.
    pub open spec fn holds(self, value: T) -> bool {
        !strictly_below(value, self.0) && !strictly_below(self.1, value)
    }

    /// Both ends are members.
    pub open spec fn spans(self) -> bool {
        self.holds(self.0) && self.holds(self.1)
    }
}

impl<T: Add> vstd::std_specs::ops::AddSpecImpl for Interval<T> {
    open spec fn obeys_add_spec() -> bool {
        T::obeys_add_spec()
    }

    open spec fn add_req(self, rhs: Self) -> bool {
        self.0.add_req(rhs.0) && self.1.add_req(rhs.1)
    }

    open spec fn add_spec(self, rhs: Self) -> Interval<T::Output> {
        Interval(self.0.add_spec(rhs.0), self.1.add_spec(rhs.1))
    }
}

impl<T: Add> Add for Interval<T> {
    type Output = Interval<T::Output>;

    /// The sums of the starts and of the ends.
    fn add(self, rhs: Self) -> Self::Output {
        Interval(self.0 + rhs.0, self.1 + rhs.1)
    }
}

impl<T: Sub> vstd::std_specs::ops::SubSpecImpl for Interval<T> {
    open spec fn obeys_sub_spec() -> bool {
        T::obeys_sub_spec()
    }

    open spec fn sub_req(self, rhs: Self) -> bool {
        self.0.sub_req(rhs.1) && self.1.sub_req(rhs.0)
    }

    open spec fn sub_spec(self, rhs: Self) -> Interval<T::Output> {
        Interval(self.0.sub_spec(rhs.1), self.1.sub_spec(rhs.0))
    }
}

impl<T: Sub> Sub for Interval<T> {
    type Output = Interval<T::Output>;

    /// From the start less the other's end to the end less the other's start.
    fn sub(self, rhs: Self) -> Self::Output {
        Interval(self.0 - rhs.1, self.1 - rhs.0)
    }
}

impl<T: Neg> vstd::std_specs::ops::NegSpecImpl for Interval<T> {
    open spec fn obeys_neg_spec() -> bool {
        T::obeys_neg_spec()
    }

    open spec fn neg_req(self) -> bool {
        self.0.neg_req() && self.1.neg_req()
    }

    open spec fn neg_spec(self) -> Interval<T::Output> {
        Interval(self.1.neg_spec(), self.0.neg_spec())
    }
}

impl<T: Neg> Neg for Interval<T> {
    type Output = Interval<T::Output>;

    /// From the negated end to the negated start.
    fn neg(self) -> Self::Output {
        let Interval(lo, hi) = self;
        Interval(hi.neg(), lo.neg())
    }
}

/// The products of each endpoint of `x` with each endpoint of `y`.
pub open spec fn endpoint_products<T: Mul>(x: Interval<T>, y: Interval<T>) -> Seq<T::Output> {
    seq![
        x.0.mul_spec(y.0),
        x.0.mul_spec(y.1),
        x.1.mul_spec(y.0),
        x.1.mul_spec(y.1),
    ]
}

/// Each endpoint of `x` can be multiplied by each endpoint of `y`.
pub open spec fn products_defined<T: Mul>(x: Interval<T>, y: Interval<T>) -> bool {
    &&& x.0.mul_req(y.0)
    &&& x.0.mul_req(y.1)
    &&& x.1.mul_req(y.0)
    &&& x.1.mul_req(y.1)
}

/// Each endpoint of `x` can be divided by each endpoint of `y`.
pub open spec fn quotients_defined<T: Div>(x: Interval<T>, y: Interval<T>) -> bool {
    &&& x.0.div_req(y.0)
    &&& x.0.div_req(y.1)
    &&& x.1.div_req(y.0)
    &&& x.1.div_req(y.1)
}

/// The quotients of each endpoint of `x` by each endpoint of `y`.
pub open spec fn endpoint_quotients<T: Div>(x: Interval<T>, y: Interval<T>) -> Seq<T::Output> {
    seq![
        x.0.div_spec(y.0),
        x.0.div_spec(y.1),
        x.1.div_spec(y.0),
        x.1.div_spec(y.1),
    ]
}

impl<T> vstd::std_specs::ops::MulSpecImpl for Interval<T> where T: Copy + Mul, T::Output: PartialOrd + Copy {
    /// The product is stated by `mul`'s own `ensures`, as a relation: which of
    /// two equal products becomes a bound is left open.
    open spec fn obeys_mul_spec() -> bool {
        false
    }

    open spec fn mul_req(self, rhs: Self) -> bool {
        products_defined(self, rhs)
    }

    open spec fn mul_spec(self, rhs: Self) -> Interval<T::Output> {
        arbitrary()
    }
}

impl<T> Mul for Interval<T> where T: Copy + Mul, T::Output: PartialOrd + Copy {
    type Output = Interval<T::Output>;

    /// From the least to the greatest of the four products of an end of
    /// `self` with an end of `rhs`.
    fn mul(self, rhs: Self) -> (r: Self::Output)
        ensures
            T::obeys_mul_spec() ==> bounds_of(endpoint_products(self, rhs), r.0, r.1),
    {
        let xs = [self.0, self.1];
        let ys = [rhs.0, rhs.1];
        let pairs = cartesian_pairs(xs, ys);
        let ghost wanted = endpoint_products(self, rhs);
        proof {
            lemma_pairs_of_two(xs@, ys@);
        }
        let mut products: Vec<T::Output> = Vec::new();
        let mut k: usize = 0;
        while k < 4
            invariant
                k <= 4,
                products_defined(self, rhs),
                pairs@ == seq![
                    (self.0, rhs.0),
                    (self.0, rhs.1),
                    (self.1, rhs.0),
                    (self.1, rhs.1),
                ],
                wanted == endpoint_products(self, rhs),
                products@.len() == k,
                T::obeys_mul_spec() ==> products@ == wanted.take(k as int),
            decreases 4 - k,
        {
            let (a, b) = pairs[k];
            products.push(a * b);
            k = k + 1;
        }
        assert(wanted.take(4) == wanted);
        match least_and_greatest(products) {
            Extremes::Pair(lo, hi) => Interval(lo, hi),
            Extremes::Single(x) => Interval(x, x),
            Extremes::Nothing => vstd::pervasive::unreached(),
        }
    }
}

impl<T> vstd::std_specs::ops::DivSpecImpl for Interval<T> where T: Copy + Div, T::Output: PartialOrd + Copy {
    /// The quotient is stated by `div`'s own `ensures`, as a relation: which of
    /// two equal quotients becomes a bound is left open.
    open spec fn obeys_div_spec() -> bool {
        false
    }

    open spec fn div_req(self, rhs: Self) -> bool {
        quotients_defined(self, rhs)
    }

    open spec fn div_spec(self, rhs: Self) -> Interval<T::Output> {
        arbitrary()
    }
}

impl<T> Div for Interval<T> where T: Copy + Div, T::Output: PartialOrd + Copy {
    type Output = Interval<T::Output>;

    /// From the least to the greatest of the four quotients of an end of
    /// `self` by an end of `rhs`.
    fn div(self, rhs: Self) -> (r: Self::Output)
        ensures
            T::obeys_div_spec() ==> bounds_of(endpoint_quotients(self, rhs), r.0, r.1),
    {
        let xs = [self.0, self.1];
        let ys = [rhs.0, rhs.1];
        let pairs = cartesian_pairs(xs, ys);
        let ghost wanted = endpoint_quotients(self, rhs);
        proof {
            lemma_pairs_of_two(xs@, ys@);
        }
        let mut quotients: Vec<T::Output> = Vec::new();
        let mut k: usize = 0;
        while k < 4
            invariant
                k <= 4,
                quotients_defined(self, rhs),
                pairs@ == seq![
                    (self.0, rhs.0),
                    (self.0, rhs.1),
                    (self.1, rhs.0),
                    (self.1, rhs.1),
                ],
                wanted == endpoint_quotients(self, rhs),
                quotients@.len() == k,
                T::obeys_div_spec() ==> quotients@ == wanted.take(k as int),
            decreases 4 - k,
        {
            let (a, b) = pairs[k];
            quotients.push(a / b);
            k = k + 1;
        }
        assert(wanted.take(4) == wanted);
        match least_and_greatest(quotients) {
            Extremes::Pair(lo, hi) => Interval(lo, hi),
            Extremes::Single(x) => Interval(x, x),
            Extremes::Nothing => vstd::pervasive::unreached(),
        }
    }
}

impl<T: Clone> vstd::std_specs::convert::FromSpecImpl<T> for Interval<T> {
    /// The interval is stated by `from`'s own `ensures`: its start is a clone
    /// of the value, and what a clone is lies with `T`.
    open spec fn obeys_from_spec() -> bool {
        false
    }

    open spec fn from_spec(value: T) -> Self {
        arbitrary()
    }
}

impl<T: Clone> From<T> for Interval<T> {
    /// The interval that holds `value` and nothing else.
    fn from(value: T) -> (r: Self)
        ensures
            cloned(value, r.0),
            r.1 == value,
    {
        Self(value.clone(), value)
    }
}

impl<T: Copy + Mul> Interval<T> {
    /// Scales both endpoints by `factor`. The result bounds the scaled values
    /// where `factor` is not negative.
    pub fn scale(self, factor: T) -> (r: Interval<T::Output>)
        requires
            self.0.mul_req(factor),
            self.1.mul_req(factor),
        ensures
            T::obeys_mul_spec() ==> r == Interval(self.0.mul_spec(factor), self.1.mul_spec(factor)),
    {
        Interval(self.0 * factor, self.1 * factor)
    }
}

/// The text of an interval whose ends read `lo` and `hi`: `[lo..hi]`.
pub open spec fn bracketed(lo: Seq<char>, hi: Seq<char>) -> Seq<char> {
    seq!['['] + lo + seq!['.', '.'] + hi + seq![']']
}

/// Writes an interval from the texts of its ends.
pub fn bracket(lo: &str, hi: &str) -> (text: String)
    ensures
        text@ == bracketed(lo@, hi@),
{
    proof {
        reveal_strlit("[");
        reveal_strlit("..");
        reveal_strlit("]");
    }
    let mut text = String::from_str("[");
    text.append(lo);
    text.append("..");
    text.append(hi);
    text.append("]");
    assert(text@ =~= bracketed(lo@, hi@));
    text
}

/// `text` is what the `Display` of `value` writes where no precision is
/// asked for.
pub open spec fn written<T: Display>(value: &T, text: Seq<char>) -> bool {
    exists|s: String| s@ == text && #[trigger] to_string_from_display_ensures::<T>(value, s)
}

/// The greatest number of digits after the point that a text can be asked
/// for.
pub const MAX_PRECISION: usize = 65535;

/// Calls `format!` with `{:.*}` on the value, for `precision` digits after the
/// point. Nothing is claimed of the text: it is whatever the value's `Display`
/// writes. The formatting machinery takes no precision above `MAX_PRECISION`,
/// so none is handed to it.
#[verifier::external_body]
fn shown_to<T: Display>(value: &T, precision: usize) -> String
    requires
        precision <= MAX_PRECISION,
{
    format!("{:.*}", precision, value)
}

impl<T: Display> Interval<T> {
    /// The interval as text, `[start..end]`, each end with `precision` digits
    /// after the point where a precision is given.
    pub fn to_text(&self, precision: Option<usize>) -> (text: String)
        requires
            precision matches Some(digits) ==> digits <= MAX_PRECISION,
        ensures
            exists|lo: Seq<char>, hi: Seq<char>| text@ == #[trigger] bracketed(lo, hi),
            precision is None ==> exists|lo: Seq<char>, hi: Seq<char>|
                written(&self.0, lo) && written(&self.1, hi) && text@ == #[trigger] bracketed(
                    lo,
                    hi,
                ),
    {
        let (lo, hi) = match precision {
            Some(digits) => (shown_to(&self.0, digits), shown_to(&self.1, digits)),
            None => (self.0.to_string(), self.1.to_string()),
        };
        proof {
            if precision is None {
                assert(written(&self.0, lo@));
                assert(written(&self.1, hi@));
            }
        }
        bracket(lo.as_str(), hi.as_str())
    }
}

} // verus!
