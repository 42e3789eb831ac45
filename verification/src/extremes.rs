//! Pairing the endpoints of two intervals and picking the least and the
//! greatest of what comes out.

use crate::order::{ranks, strictly_below};
use itertools::{Itertools, MinMaxResult};
use vstd::prelude::*;

verus! {

/// The least and the greatest of a list of values.
pub enum Extremes<P> {
    /// The list was empty.
    Nothing,
    /// The list held one value.
    Single(P),
    /// The list held two values or more: the least, then the greatest.
    Pair(P, P),
}

/// Every pair of a member of `xs` with a member of `ys`: the members of `xs`
/// in order, each with the members of `ys` in order.
pub open spec fn all_pairs<A, B>(xs: Seq<A>, ys: Seq<B>) -> Seq<(A, B)> {
    Seq::new(
        xs.len() * ys.len(),
        |k: int| (xs[k / (ys.len() as int)], ys[k % (ys.len() as int)]),
    )
}

/// The four pairs that two lists of two members make.
pub proof fn lemma_pairs_of_two<A, B>(xs: Seq<A>, ys: Seq<B>)
    requires
        xs.len() == 2,
        ys.len() == 2,
    ensures
        all_pairs(xs, ys) == seq![(xs[0], ys[0]), (xs[0], ys[1]), (xs[1], ys[0]), (xs[1], ys[1])],
{
    let got = all_pairs(xs, ys);
    assert(xs.len() * ys.len() == 4) by (nonlinear_arith)
        requires
            xs.len() == 2,
            ys.len() == 2,
    ;
    assert(got.len() == 4);
    assert(got[0] == (xs[0], ys[0]));
    assert(got[1] == (xs[0], ys[1]));
    assert(got[2] == (xs[1], ys[0]));
    assert(got[3] == (xs[1], ys[1]));
    assert(got =~= seq![(xs[0], ys[0]), (xs[0], ys[1]), (xs[1], ys[0]), (xs[1], ys[1])]);
}

/// `lo` and `hi` are members of `items`; where the order ranks the members,
/// none lies below `lo` and none above `hi`.
pub open spec fn bounds_of<P: PartialOrd>(items: Seq<P>, lo: P, hi: P) -> bool {
    &&& items.contains(lo)
    &&& items.contains(hi)
    &&& ranks(items) ==> forall|e: P| #[trigger]
        items.contains(e) ==> !strictly_below(e, lo) && !strictly_below(hi, e)
}

impl<P: PartialOrd> Extremes<P> {
    /// What `self` says of `items`: that it is empty, its one member, or two
    /// members that bound it.
    pub open spec fn describes(self, items: Seq<P>) -> bool {
        match self {
            Extremes::Nothing => items.len() == 0,
            Extremes::Single(x) => items.len() == 1 && x == items[0],
            Extremes::Pair(lo, hi) => items.len() >= 2 && bounds_of(items, lo, hi),
        }
    }
}

/// Calls `Itertools::cartesian_product` on the two arrays and collects what it
/// yields. The contract claims that the adaptor walks the first array once and
/// the second array anew for each member of the first, and that the copies it
/// makes of the members are the members.
#[verifier::external_body]
pub(crate) fn cartesian_pairs<A: Copy, B: Copy>(xs: [A; 2], ys: [B; 2]) -> (r: Vec<(A, B)>)
    ensures
        r@ == all_pairs(xs@, ys@),
{
    xs.into_iter().cartesian_product(ys).collect()
}

/// Calls `Itertools::minmax` on the list. The contract claims the three shapes
/// of the method's result: nothing for an empty list, the one element of a
/// list of one, and else two of the elements. That no element lies below the
/// first of the two or above the second is claimed only where `<` ranks the
/// list: the method promises nothing for values that do not compare.
#[verifier::external_body]
pub(crate) fn least_and_greatest<P: PartialOrd>(items: Vec<P>) -> (r: Extremes<P>)
    ensures
        r.describes(items@),
{
    match items.into_iter().minmax() {
        MinMaxResult::NoElements => Extremes::Nothing,
        MinMaxResult::OneElement(x) => Extremes::Single(x),
        MinMaxResult::MinMax(lo, hi) => Extremes::Pair(lo, hi),
    }
}

} // verus!
