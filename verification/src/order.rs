//! Spec-level vocabulary for the comparisons that `PartialOrd` performs.

use vstd::prelude::*;
use vstd::std_specs::cmp::{PartialOrdIs, PartialOrdSpec};

verus! {

/// The executable comparisons of `P` return what `strictly_below` and
/// `at_most` say.
pub open spec fn comparisons_obey<P: PartialOrd>() -> bool {
    P::obeys_partial_cmp_spec()
}

/// `a < b` in the order of `P`.
pub open spec fn strictly_below<P: PartialOrd>(a: P, b: P) -> bool {
    a.is_lt(&b)
}

/// `a <= b` in the order of `P`.
pub open spec fn at_most<P: PartialOrd>(a: P, b: P) -> bool {
    a.is_le(&b)
}

/// On the members of `items`, `<` is a strict weak order that the executable
/// comparison follows: nothing lies below itself, `<` is transitive, and so is
/// its negation.
pub open spec fn ranks<P: PartialOrd>(items: Seq<P>) -> bool {
    &&& comparisons_obey::<P>()
    &&& forall|a: P| #[trigger] items.contains(a) ==> !strictly_below(a, a)
    &&& forall|a: P, b: P, c: P|
        #![trigger strictly_below(a, b), strictly_below(b, c)]
        items.contains(a) && items.contains(b) && items.contains(c) && strictly_below(a, b)
            && strictly_below(b, c) ==> strictly_below(a, c)
    &&& forall|a: P, b: P, c: P|
        #![trigger strictly_below(a, b), strictly_below(b, c)]
        items.contains(a) && items.contains(b) && items.contains(c) && !strictly_below(a, b)
            && !strictly_below(b, c) ==> !strictly_below(a, c)
}

/// On all of `P`, `<` is a strict weak order that the executable comparison
/// follows.
pub open spec fn orders<P: PartialOrd>() -> bool {
    &&& comparisons_obey::<P>()
    &&& forall|a: P| !#[trigger] strictly_below(a, a)
    &&& forall|a: P, b: P, c: P|
        #![trigger strictly_below(a, b), strictly_below(b, c)]
        strictly_below(a, b) && strictly_below(b, c) ==> strictly_below(a, c)
    &&& forall|a: P, b: P, c: P|
        #![trigger strictly_below(a, b), strictly_below(b, c)]
        !strictly_below(a, b) && !strictly_below(b, c) ==> !strictly_below(a, c)
}

/// `v` lies between `p` and `q`, whichever of the two is the lower.
pub open spec fn between<P: PartialOrd>(v: P, p: P, q: P) -> bool {
    ||| !strictly_below(v, p) && !strictly_below(q, v)
    ||| !strictly_below(v, q) && !strictly_below(p, v)
}

} // verus!
