use comp_filter::lerp;
use comp_filter::ComplementaryFilter;
use comp_filter::Quat;
use comp_filter::Rational;

/// Approximate comparison with the tolerance the scalar results are stated
/// under.
fn eq(a: f32, b: f32) -> bool {
    let epsilon = 0.01;
    (a - b).abs() < epsilon
}

fn as_f32(r: Rational) -> f32 {
    r.num as f32 / r.den as f32
}

/// Exact equality of two rationals, by cross-multiplication.
fn same(x: Rational, y: Rational) -> bool {
    (x.num as i128) * (y.den as i128) == (y.num as i128) * (x.den as i128)
}

fn rational(num: i64, den: i64) -> Rational {
    Rational { num, den }
}

fn whole(num: i64) -> Rational {
    rational(num, 1)
}

#[test]
fn works_with_f32() {
    let initial_value = whole(1);
    let alpha = rational(4, 5);
    let x_k = whole(2);

    let mut comp_filter: ComplementaryFilter<Rational> =
        ComplementaryFilter::new(initial_value, alpha);

    assert!(eq(as_f32(comp_filter.predict_next(x_k)), 1.8));
}

#[test]
fn works_with_quaternion() {
    let initial_value = Quat {
        i: whole(0),
        j: whole(0),
        k: whole(0),
        w: whole(1),
    };
    let alpha = rational(4, 5);
    let x_k = Quat {
        i: whole(2),
        j: whole(3),
        k: whole(4),
        w: whole(1),
    };

    let mut comp_filter: ComplementaryFilter<Quat> = ComplementaryFilter::new(initial_value, alpha);

    let y_k = comp_filter.predict_next(x_k);
    assert!(eq(as_f32(y_k.i), 1.6));
    assert!(eq(as_f32(y_k.j), 2.4));
    assert!(eq(as_f32(y_k.k), 3.2));
    assert!(eq(as_f32(y_k.w), 1.0));
}

#[test]
fn lerp_works_with_f32() {
    assert!(eq(as_f32(lerp(whole(1), whole(2), rational(4, 5))), 1.8));
}

#[test]
fn lerp_concrete_is_exact() {
    // 1 * (1 - 4/5) + 2 * (4/5) is exactly 9/5.
    assert!(same(lerp(whole(1), whole(2), rational(4, 5)), rational(9, 5)));
}

#[test]
fn lerp_endpoint_fractions() {
    // At fraction 0 the first value comes back; at fraction 1 the second.
    let a = rational(3, 7);
    let b = rational(-9, 4);
    assert!(same(lerp(a, b, whole(0)), a));
    assert!(same(lerp(a, b, whole(1)), b));
}

#[test]
fn lerp_stays_between_endpoints() {
    let a = whole(1);
    let b = whole(3);
    let r = lerp(a, b, rational(1, 4));
    // Exactly 1 * 3/4 + 3 * 1/4 = 3/2, which lies within [1, 3].
    assert!(same(r, rational(3, 2)));
    assert!((a.num as i128) * (r.den as i128) <= (r.num as i128) * (a.den as i128));
    assert!((r.num as i128) * (b.den as i128) <= (b.num as i128) * (r.den as i128));
}

#[test]
fn lerp_outside_range_extrapolates() {
    // A fraction beyond 1 is accepted and extrapolates past the second value.
    assert!(same(lerp(whole(0), whole(1), whole(2)), whole(2)));
    // A negative fraction extrapolates before the first value.
    assert!(same(lerp(whole(0), whole(1), whole(-1)), whole(-1)));
}

#[test]
fn lerp_with_negative_values() {
    assert!(same(lerp(whole(-1), whole(1), rational(1, 2)), whole(0)));
}

#[test]
fn lerp_componentwise_on_quat() {
    let a = Quat {
        i: whole(0),
        j: whole(0),
        k: whole(0),
        w: whole(1),
    };
    let b = Quat {
        i: whole(2),
        j: whole(3),
        k: whole(4),
        w: whole(1),
    };
    let r = lerp(a, b, rational(4, 5));
    assert!(same(r.i, rational(8, 5)));
    assert!(same(r.j, rational(12, 5)));
    assert!(same(r.k, rational(16, 5)));
    assert!(same(r.w, whole(1)));
}

#[test]
fn filter_single_step_matches_formula() {
    // (2 * 4/5) + (1 * 1/5) is exactly 9/5.
    let mut filter = ComplementaryFilter::new(whole(1), rational(4, 5));
    let y = filter.predict_next(whole(2));
    assert!(same(y, rational(9, 5)));
    assert!(same(filter.current_value, rational(9, 5)));
}

#[test]
fn repeated_measurements_converge_geometrically() {
    // From 0 toward 2 with alpha 1/2 the estimates run 1, 3/2, 7/4: the
    // distance to the measurement halves with every update.
    let m = whole(2);
    let mut filter = ComplementaryFilter::new(whole(0), rational(1, 2));
    let y1 = filter.predict_next(m);
    assert!(same(y1, whole(1)));
    let y2 = filter.predict_next(m);
    assert!(same(y2, rational(3, 2)));
    let y3 = filter.predict_next(m);
    assert!(same(y3, rational(7, 4)));
    // After three updates the remaining distance is (1/2)^3 of the start.
    assert!(same(
        rational(m.num * y3.den - y3.num * m.den, m.den * y3.den),
        rational(2 - 0, 8),
    ));
}

#[test]
fn set_alpha_affects_only_future_updates() {
    let mut filter = ComplementaryFilter::new(whole(1), rational(4, 5));
    let y1 = filter.predict_next(whole(2));
    assert!(same(y1, rational(9, 5)));
    filter.set_alpha(rational(1, 2));
    // The earlier result and the stored estimate are untouched.
    assert!(same(y1, rational(9, 5)));
    assert!(same(filter.current_value, rational(9, 5)));
    assert_eq!(filter.alpha, rational(1, 2));
    // The next update blends with the new fraction:
    // (2 * 1/2) + (9/5 * 1/2) = 19/10.
    let y2 = filter.predict_next(whole(2));
    assert!(same(y2, rational(19, 10)));
}

#[test]
fn degenerate_fraction_zero_keeps_estimate() {
    let mut filter = ComplementaryFilter::new(rational(5, 3), whole(0));
    let y = filter.predict_next(whole(7));
    assert!(same(y, rational(5, 3)));
}

#[test]
fn degenerate_fraction_one_takes_measurement() {
    let mut filter = ComplementaryFilter::new(rational(5, 3), whole(1));
    let y = filter.predict_next(whole(7));
    assert!(same(y, whole(7)));
}

#[test]
fn out_of_range_fraction_is_stored_verbatim() {
    // The filter never corrects the fraction; 3/2 extrapolates.
    let mut filter = ComplementaryFilter::new(whole(0), rational(3, 2));
    assert_eq!(filter.alpha, rational(3, 2));
    // (2 * 3/2) + (0 * -1/2) = 3.
    let y = filter.predict_next(whole(2));
    assert!(same(y, whole(3)));
}
