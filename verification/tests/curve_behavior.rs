//! Behavior of the spline-based tone curve.

use lvie_core::curve::{Curve, CurveError, CurveType, CURVE_MAX};

#[test]
fn default_monotone_curve_is_the_identity_map() {
    let c = Curve::new(CurveType::MONOTONE);
    for v in [0, 1, 12_345, 25_000, 50_000, 77_777, 99_999, 100_000] {
        assert_eq!(c.apply_curve(v), v);
    }
}

#[test]
fn default_smooth_curve_fixes_the_midpoint() {
    let c = Curve::new(CurveType::SMOOTH);
    assert_eq!(c.apply_curve(0), 0);
    assert_eq!(c.apply_curve(50_000), 50_000);
    assert_eq!(c.apply_curve(100_000), 100_000);
}

#[test]
fn add_point_rejects_coordinates_outside_the_domain() {
    let mut c = Curve::new(CurveType::MONOTONE);
    assert!(matches!(c.add_point([-1, 50_000]), Err(CurveError::OutOfRange(_))));
    assert!(matches!(c.add_point([100_001, 50_000]), Err(CurveError::OutOfRange(_))));
    assert!(matches!(c.add_point([50_000, -1]), Err(CurveError::OutOfRange(_))));
    assert!(matches!(c.add_point([50_000, 100_001]), Err(CurveError::OutOfRange(_))));
    // the rejected edits never corrupt the curve
    assert_eq!(c.get_points().len(), 2);
    assert_eq!(c.apply_curve(30_000), 30_000);
}

#[test]
fn add_point_rejects_a_duplicate_x() {
    let mut c = Curve::new(CurveType::MONOTONE);
    assert!(matches!(c.add_point([0, 0]), Err(CurveError::OutOfRange(_))));
    assert!(matches!(c.add_point([100_000, 100_000]), Err(CurveError::OutOfRange(_))));
    assert_eq!(c.add_point([40_000, 20_000]).unwrap(), 1);
    assert!(matches!(c.add_point([40_000, 90_000]), Err(CurveError::OutOfRange(_))));
}

#[test]
fn add_point_inserts_in_sorted_order() {
    let mut c = Curve::new(CurveType::MONOTONE);
    assert_eq!(c.add_point([60_000, 70_000]).unwrap(), 1);
    assert_eq!(c.add_point([30_000, 10_000]).unwrap(), 1);
    let pts = c.get_points();
    assert_eq!(
        pts,
        vec![
            [0, 0],
            [30_000, 10_000],
            [60_000, 70_000],
            [100_000, 100_000],
        ]
    );
}

#[test]
fn curve_interpolates_through_its_control_points() {
    let mut c = Curve::new(CurveType::MONOTONE);
    c.add_point([25_000, 10_000]).unwrap();
    c.add_point([75_000, 90_000]).unwrap();
    assert_eq!(c.apply_curve(0), 0);
    assert_eq!(c.apply_curve(25_000), 10_000);
    assert_eq!(c.apply_curve(75_000), 90_000);
    assert_eq!(c.apply_curve(100_000), 100_000);
}

#[test]
fn remove_point_rejects_the_endpoints_and_bad_indices() {
    let mut c = Curve::new(CurveType::MONOTONE);
    c.add_point([50_000, 60_000]).unwrap();
    assert!(matches!(c.remove_point(0), Err(CurveError::OutOfRange(_))));
    assert!(matches!(c.remove_point(2), Err(CurveError::OutOfRange(_))));
    assert!(matches!(c.remove_point(99), Err(CurveError::OutOfRange(_))));
    assert_eq!(c.get_points().len(), 3);
    assert!(c.remove_point(1).is_ok());
    assert_eq!(c.get_points().len(), 2);
}

#[test]
fn update_curve_accepts_a_well_formed_table() {
    let mut c = Curve::new(CurveType::MONOTONE);
    let r = c.update_curve(vec![0, 20_000, 100_000], vec![0, 40_000, 100_000]);
    assert!(r.is_ok());
    assert_eq!(c.apply_curve(20_000), 40_000);
}

#[test]
fn update_curve_sorts_unsorted_points_and_re_pairs_y() {
    let mut c = Curve::new(CurveType::MONOTONE);
    // x values arrive out of order: they are sorted ascending and every y
    // stays paired with its own x
    let r = c.update_curve(
        vec![0, 60_000, 30_000, 100_000],
        vec![0, 80_000, 20_000, 100_000],
    );
    assert!(r.is_ok());
    assert_eq!(
        c.get_points(),
        vec![
            [0, 0],
            [30_000, 20_000],
            [60_000, 80_000],
            [100_000, 100_000],
        ]
    );
    assert_eq!(c.apply_curve(30_000), 20_000);
    assert_eq!(c.apply_curve(60_000), 80_000);
}

#[test]
fn update_curve_rejects_a_broken_table() {
    let mut c = Curve::new(CurveType::MONOTONE);
    c.add_point([10_000, 90_000]).unwrap();
    // mismatched lengths: rejected, curve unchanged
    let r = c.update_curve(vec![0, 100_000], vec![0, 1, 100_000]);
    assert!(matches!(r, Err(CurveError::OutOfRange(_))));
    assert_eq!(c.get_points(), vec![[0, 0], [10_000, 90_000], [100_000, 100_000]]);
    // a missing domain corner
    assert!(c.update_curve(vec![0, 90_000], vec![0, 100_000]).is_err());
    // a duplicated x admits no strictly increasing arrangement
    assert!(c
        .update_curve(vec![0, 50_000, 50_000, 100_000], vec![0, 1, 2, 100_000])
        .is_err());
    // a coordinate outside the domain
    assert!(c
        .update_curve(vec![0, 50_000, 100_000], vec![0, 100_001, 100_000])
        .is_err());
    assert_eq!(c.get_points(), vec![[0, 0], [10_000, 90_000], [100_000, 100_000]]);
}

#[test]
fn from_points_validates_like_update_curve() {
    assert!(Curve::from_points(vec![0, 100_000], vec![0, 100_000], CurveType::MONOTONE).is_ok());
    assert!(Curve::from_points(vec![0, 100_000], vec![0, 99_999], CurveType::MONOTONE).is_err());
    // both corner pairs present but out of order: sorted and accepted
    let c = Curve::from_points(vec![100_000, 0], vec![100_000, 0], CurveType::SMOOTH).unwrap();
    assert_eq!(c.get_points(), vec![[0, 0], [100_000, 100_000]]);
    // the pair (100000, 0) is no corner point: rejected
    assert!(Curve::from_points(vec![100_000, 0], vec![0, 100_000], CurveType::SMOOTH).is_err());
}

#[test]
fn set_curve_type_keeps_the_points() {
    let mut c = Curve::new(CurveType::MONOTONE);
    c.add_point([50_000, 20_000]).unwrap();
    c.set_curve_type(CurveType::SMOOTH);
    assert_eq!(c.get_points().len(), 3);
    assert_eq!(c.apply_curve(50_000), 20_000);
}

#[test]
fn apply_curve_extrapolates_outside_the_domain() {
    let c = Curve::new(CurveType::MONOTONE);
    // the identity segment extends past both corners instead of clamping
    assert_eq!(c.apply_curve(-5_000), -5_000);
    assert_eq!(c.apply_curve(CURVE_MAX + 5_000), CURVE_MAX + 5_000);
}
