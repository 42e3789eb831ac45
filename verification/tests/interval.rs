use cauchy::interval::Interval;

#[test]
fn parts_of_an_interval() {
    let x = Interval::new(1, 4);
    assert_eq!(x.start(), 1);
    assert_eq!(x.end(), 4);
    assert_eq!(x.into_inner(), (1, 4));
}

#[test]
fn sum_adds_the_ends() {
    assert_eq!(Interval::new(1, 2) + Interval::new(10, 20), Interval::new(11, 22));
}

#[test]
fn difference_crosses_the_ends() {
    assert_eq!(Interval::new(1, 2) - Interval::new(10, 20), Interval::new(-19, -8));
}

#[test]
fn negation_swaps_the_ends() {
    assert_eq!(-Interval::new(1, 2), Interval::new(-2, -1));
}

#[test]
fn product_takes_the_least_and_the_greatest_corner() {
    assert_eq!(Interval::new(-2, 3) * Interval::new(-5, 7), Interval::new(-15, 21));
    assert_eq!(Interval::new(2, 3) * Interval::new(5, 7), Interval::new(10, 21));
    assert_eq!(Interval::new(-3, -2) * Interval::new(5, 7), Interval::new(-21, -10));
}

#[test]
fn quotient_takes_the_least_and_the_greatest_corner() {
    assert_eq!(Interval::new(8.0, 16.0) / Interval::new(2.0, 4.0), Interval::new(2.0, 8.0));
    assert_eq!(Interval::new(-8.0, 16.0) / Interval::new(2.0, 4.0), Interval::new(-4.0, 8.0));
}

#[test]
fn one_point_intervals_compute_as_their_points() {
    let a = 6.5;
    let c = -0.25;
    assert_eq!(Interval::from(a) + Interval::from(c), Interval::from(a + c));
    assert_eq!(Interval::from(a) - Interval::from(c), Interval::from(a - c));
    assert_eq!(Interval::from(a) * Interval::from(c), Interval::from(a * c));
    assert_eq!(Interval::from(a) / Interval::from(c), Interval::from(a / c));
}

#[test]
fn product_encloses_the_products_of_members() {
    let x = Interval::new(-3i64, 2);
    let y = Interval::new(-1i64, 4);
    let (lo, hi) = (x * y).into_inner();
    for a in -3..=2 {
        for b in -1..=4 {
            assert!(lo <= a * b && a * b <= hi);
        }
    }
}

#[test]
fn from_makes_a_one_point_interval() {
    assert_eq!(Interval::from(7), Interval::new(7, 7));
}

#[test]
fn scale_multiplies_both_ends() {
    assert_eq!(Interval::new(1.5, 2.5).scale(2.0), Interval::new(3.0, 5.0));
}

#[test]
fn text_is_the_two_ends_in_brackets() {
    assert_eq!(Interval::new(1, 2).to_text(None), "[1..2]");
    assert_eq!(Interval::new(0.5, 2.0).to_text(None), "[0.5..2]");
}

#[test]
fn text_follows_the_precision() {
    assert_eq!(Interval::new(0.576, 0.578).to_text(Some(2)), "[0.58..0.58]");
    assert_eq!(Interval::new(1.0, 2.5).to_text(Some(3)), "[1.000..2.500]");
}

#[test]
fn text_takes_the_greatest_precision() {
    let text = Interval::new(1, 2).to_text(Some(cauchy::interval::MAX_PRECISION));
    assert_eq!(text, "[1..2]");
}

#[test]
fn bracket_joins_the_texts_of_the_ends() {
    assert_eq!(cauchy::interval::bracket("a", "bc"), "[a..bc]");
    assert_eq!(cauchy::interval::bracket("", ""), "[..]");
}

#[test]
fn sum_of_float_intervals() {
    assert_eq!(
        Interval::new(0.5, 1.5) + Interval::new(0.25, 0.75),
        Interval::new(0.75, 2.25)
    );
}
