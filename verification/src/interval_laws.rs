//! What holds of interval arithmetic.

use crate::extremes::bounds_of;
use crate::interval::{
    endpoint_products, endpoint_quotients, products_defined, Interval,
};
use crate::order::{between, orders, ranks, strictly_below};
use std::ops::{Add, Div, Mul, Sub};
use vstd::prelude::*;
use vstd::std_specs::ops::{AddSpec, DivSpec, MulSpec, NegSpec, SubSpec};

verus! {

/// The interval that holds `value` and nothing else.
pub open spec fn point<T>(value: T) -> Interval<T> {
    Interval(value, value)
}

/// The sum of two one-point intervals is the one-point interval of the sum of
/// the points.
pub proof fn lemma_point_sum<T: Add>(a: T, c: T)
    ensures
        point(a).add_spec(point(c)) == point(a.add_spec(c)),
        point(a).add_req(point(c)) == a.add_req(c),
{
}

/// The difference of two one-point intervals is the one-point interval of the
/// difference of the points.
pub proof fn lemma_point_difference<T: Sub>(a: T, c: T)
    ensures
        point(a).sub_spec(point(c)) == point(a.sub_spec(c)),
        point(a).sub_req(point(c)) == a.sub_req(c),
{
}

/// Whatever bounds the endpoint products of two one-point intervals is the
/// one-point interval of the product of the points, whether or not the
/// products compare.
pub proof fn lemma_point_product<T>(a: T, c: T, r: Interval<T::Output>) where
    T: Copy + Mul,
    T::Output: PartialOrd + Copy,

    requires
        bounds_of(endpoint_products(point(a), point(c)), r.0, r.1),
    ensures
        r == point(a.mul_spec(c)),
{
    let items = endpoint_products(point(a), point(c));
    assert(forall|k: int| 0 <= k < items.len() ==> items[k] == a.mul_spec(c));
}

/// Whatever bounds the endpoint quotients of two one-point intervals is the
/// one-point interval of the quotient of the points, whether or not the
/// quotients compare.
pub proof fn lemma_point_quotient<T>(a: T, c: T, r: Interval<T::Output>) where
    T: Copy + Div,
    T::Output: PartialOrd + Copy,

    requires
        bounds_of(endpoint_quotients(point(a), point(c)), r.0, r.1),
    ensures
        r == point(a.div_spec(c)),
{
    let items = endpoint_quotients(point(a), point(c));
    assert(forall|k: int| 0 <= k < items.len() ==> items[k] == a.div_spec(c));
}

/// Over `i64`, the sum, the difference and the negation of intervals whose
/// start is not above their end have their start not above their end, and
/// whatever bounds the endpoint products of two intervals has too.
pub proof fn lemma_order_is_kept(x: Interval<i64>, y: Interval<i64>, product: Interval<i64>)
    requires
        x.wf(),
        y.wf(),
        bounds_of(endpoint_products(x, y), product.0, product.1),
    ensures
        x.add_req(y) ==> x.add_spec(y).wf(),
        x.sub_req(y) ==> x.sub_spec(y).wf(),
        x.neg_req() ==> x.neg_spec().wf(),
        product.wf(),
{
    let items = endpoint_products(x, y);
    assert(ranks(items));
    assert(items.contains(product.0));
}

/// Multiplying by a member of one interval keeps the members of the other in
/// order, one way or the other: the product of two members lies between the
/// products of either with the ends of the other's interval.
pub open spec fn multiplies_in_order<T>(x: Interval<T>, y: Interval<T>) -> bool where
    T: Copy + Mul + PartialOrd,
    T::Output: PartialOrd,
 {
    forall|a: T, b: T|
        #![trigger a.mul_spec(b)]
        x.holds(a) && y.holds(b) ==> between(
            a.mul_spec(b),
            x.0.mul_spec(b),
            x.1.mul_spec(b),
        ) && between(a.mul_spec(b), a.mul_spec(y.0), a.mul_spec(y.1))
}

/// For any number type whose products are ordered and whose multiplication
/// keeps members in order, the product of two intervals encloses the product
/// of any member of the first with any member of the second.
pub proof fn lemma_product_encloses_in_order<T>(
    x: Interval<T>,
    y: Interval<T>,
    r: Interval<T::Output>,
    a: T,
    b: T,
) where T: Copy + Mul + PartialOrd, T::Output: PartialOrd + Copy
    requires
        orders::<T::Output>(),
        x.spans(),
        y.spans(),
        multiplies_in_order(x, y),
        bounds_of(endpoint_products(x, y), r.0, r.1),
        x.holds(a),
        y.holds(b),
    ensures
        r.holds(a.mul_spec(b)),
{
    let items = endpoint_products(x, y);
    assert(ranks(items));
    assert(items.contains(items[0]) && items.contains(items[1]) && items.contains(items[2])
        && items.contains(items[3]));
    let p = a.mul_spec(b);
    let low = x.0.mul_spec(b);
    let high = x.1.mul_spec(b);
    assert(between(p, low, high));
    assert(between(low, items[0], items[1]));
    assert(between(high, items[2], items[3]));
    assert(r.holds(low)) by {
        assert(!strictly_below(items[0], r.0) && !strictly_below(r.1, items[0]));
        assert(!strictly_below(items[1], r.0) && !strictly_below(r.1, items[1]));
    }
    assert(r.holds(high)) by {
        assert(!strictly_below(items[2], r.0) && !strictly_below(r.1, items[2]));
        assert(!strictly_below(items[3], r.0) && !strictly_below(r.1, items[3]));
    }
}

/// For any number type whose products are ordered and whose multiplication
/// keeps members in order, the product of two intervals encloses the product
/// of any two intervals whose ends are members of them.
pub proof fn lemma_product_encloses_parts_in_order<T>(
    x: Interval<T>,
    y: Interval<T>,
    r: Interval<T::Output>,
    part_x: Interval<T>,
    part_y: Interval<T>,
    part_r: Interval<T::Output>,
) where T: Copy + Mul + PartialOrd, T::Output: PartialOrd + Copy
    requires
        orders::<T::Output>(),
        x.spans(),
        y.spans(),
        multiplies_in_order(x, y),
        bounds_of(endpoint_products(x, y), r.0, r.1),
        x.holds(part_x.0),
        x.holds(part_x.1),
        y.holds(part_y.0),
        y.holds(part_y.1),
        bounds_of(endpoint_products(part_x, part_y), part_r.0, part_r.1),
    ensures
        r.holds(part_r.0),
        r.holds(part_r.1),
{
    lemma_product_encloses_in_order(x, y, r, part_x.0, part_y.0);
    lemma_product_encloses_in_order(x, y, r, part_x.0, part_y.1);
    lemma_product_encloses_in_order(x, y, r, part_x.1, part_y.0);
    lemma_product_encloses_in_order(x, y, r, part_x.1, part_y.1);
    let parts = endpoint_products(part_x, part_y);
    let i = choose|i: int| 0 <= i < parts.len() && parts[i] == part_r.0;
    let j = choose|j: int| 0 <= j < parts.len() && parts[j] == part_r.1;
}

/// `i64` is such a number type, for two intervals whose four endpoint
/// products fit in an `i64`.
pub proof fn lemma_i64_multiplies_in_order(x: Interval<i64>, y: Interval<i64>)
    requires
        x.0 <= x.1,
        y.0 <= y.1,
        products_defined(x, y),
    ensures
        orders::<i64>(),
        x.spans(),
        y.spans(),
        multiplies_in_order(x, y),
{
    assert forall|a: i64, b: i64| #![trigger a.mul_spec(b)] x.holds(a) && y.holds(b) implies between(
        a.mul_spec(b),
        x.0.mul_spec(b),
        x.1.mul_spec(b),
    ) && between(a.mul_spec(b), a.mul_spec(y.0), a.mul_spec(y.1)) by {
        lemma_product_between_corners(x.0 as int, x.1 as int, y.0 as int, y.1 as int, a as int, b as int);
        lemma_product_between_corners(x.0 as int, x.1 as int, y.0 as int, y.1 as int, x.0 as int, b as int);
        lemma_product_between_corners(x.0 as int, x.1 as int, y.0 as int, y.1 as int, x.1 as int, b as int);
        lemma_product_between_corners(x.0 as int, x.1 as int, y.0 as int, y.1 as int, a as int, y.0 as int);
        lemma_product_between_corners(x.0 as int, x.1 as int, y.0 as int, y.1 as int, a as int, y.1 as int);
        assert((x.0 * b <= a * b <= x.1 * b) || (x.1 * b <= a * b <= x.0 * b)) by (nonlinear_arith)
            requires
                x.0 <= a <= x.1,
        ;
        assert((a * y.0 <= a * b <= a * y.1) || (a * y.1 <= a * b <= a * y.0)) by (nonlinear_arith)
            requires
                y.0 <= b <= y.1,
        ;
    }
}

/// A product lies between the products of the ends of the ranges that its
/// factors come from.
pub proof fn lemma_product_between_corners(x0: int, x1: int, y0: int, y1: int, a: int, b: int)
    requires
        x0 <= a <= x1,
        y0 <= b <= y1,
    ensures
        x0 * y0 <= a * b || x0 * y1 <= a * b || x1 * y0 <= a * b || x1 * y1 <= a * b,
        a * b <= x0 * y0 || a * b <= x0 * y1 || a * b <= x1 * y0 || a * b <= x1 * y1,
{
    assert(x0 * y0 <= a * b || x0 * y1 <= a * b || x1 * y0 <= a * b || x1 * y1 <= a * b)
        by (nonlinear_arith)
        requires
            x0 <= a <= x1,
            y0 <= b <= y1,
    ;
    assert(a * b <= x0 * y0 || a * b <= x0 * y1 || a * b <= x1 * y0 || a * b <= x1 * y1)
        by (nonlinear_arith)
        requires
            x0 <= a <= x1,
            y0 <= b <= y1,
    ;
}

/// Over `i64`, the product of two intervals encloses the product of any member
/// of the first with any member of the second, where the four endpoint
/// products fit in an `i64`.
pub proof fn lemma_product_encloses(
    x: Interval<i64>,
    y: Interval<i64>,
    r: Interval<i64>,
    a: i64,
    b: i64,
)
    requires
        x.0 <= a <= x.1,
        y.0 <= b <= y.1,
        products_defined(x, y),
        bounds_of(endpoint_products(x, y), r.0, r.1),
    ensures
        a.mul_req(b),
        r.0 <= a * b <= r.1,
{
    let items = endpoint_products(x, y);
    lemma_product_between_corners(x.0 as int, x.1 as int, y.0 as int, y.1 as int, a as int, b as int);
    assert(items[0] == x.0 * y.0);
    assert(items[1] == x.0 * y.1);
    assert(items[2] == x.1 * y.0);
    assert(items[3] == x.1 * y.1);
    assert(ranks(items));
    assert(items.contains(items[0]) && items.contains(items[1]) && items.contains(items[2])
        && items.contains(items[3]));
    assert(!strictly_below(items[0], r.0) && !strictly_below(r.1, items[0]));
    assert(!strictly_below(items[1], r.0) && !strictly_below(r.1, items[1]));
    assert(!strictly_below(items[2], r.0) && !strictly_below(r.1, items[2]));
    assert(!strictly_below(items[3], r.0) && !strictly_below(r.1, items[3]));
}

/// Over `i64`, the product of two intervals encloses the product of any two
/// intervals that lie within them.
pub proof fn lemma_product_encloses_parts(
    x: Interval<i64>,
    y: Interval<i64>,
    r: Interval<i64>,
    part_x: Interval<i64>,
    part_y: Interval<i64>,
    part_r: Interval<i64>,
)
    requires
        x.0 <= part_x.0 <= part_x.1 <= x.1,
        y.0 <= part_y.0 <= part_y.1 <= y.1,
        products_defined(x, y),
        bounds_of(endpoint_products(x, y), r.0, r.1),
        bounds_of(endpoint_products(part_x, part_y), part_r.0, part_r.1),
    ensures
        products_defined(part_x, part_y),
        r.0 <= part_r.0,
        part_r.1 <= r.1,
{
    lemma_product_encloses(x, y, r, part_x.0, part_y.0);
    lemma_product_encloses(x, y, r, part_x.0, part_y.1);
    lemma_product_encloses(x, y, r, part_x.1, part_y.0);
    lemma_product_encloses(x, y, r, part_x.1, part_y.1);
    let parts = endpoint_products(part_x, part_y);
    assert(parts[0] == part_x.0 * part_y.0);
    assert(parts[1] == part_x.0 * part_y.1);
    assert(parts[2] == part_x.1 * part_y.0);
    assert(parts[3] == part_x.1 * part_y.1);
    let i = choose|i: int| 0 <= i < parts.len() && parts[i] == part_r.0;
    let j = choose|j: int| 0 <= j < parts.len() && parts[j] == part_r.1;
}

} // verus!
