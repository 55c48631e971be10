use sphere_pack::parsing::{validate, ParsedSphere, ParsingError, SpheresRaw};
use sphere_pack::LENGTH_SCALE;

fn sphere(name: &str, radius: i64, proportion: u8) -> ParsedSphere {
    ParsedSphere::new(String::from(name), radius * LENGTH_SCALE, proportion)
}

fn valid_records() -> Vec<ParsedSphere> {
    vec![sphere("5_micron_Al", 5, 66), sphere("400_AP", 400, 34)]
}

fn valid_spheres_raw() -> SpheresRaw {
    SpheresRaw(valid_records())
}

fn invalid_spheres() -> SpheresRaw {
    SpheresRaw(vec![sphere("5_micron_Al", 5, 66), sphere("400_AP", 400, 32)])
}

#[test]
fn validate_well_formed() {
    let validated = validate(valid_spheres_raw()).unwrap();
    assert_eq!(valid_records().as_slice(), validated.as_slice());
}

#[test]
fn validate_invalid() {
    assert!(matches!(
        validate(invalid_spheres()),
        Err(ParsingError::InvalidProportions)
    ))
}

#[test]
fn negative_radius() {
    let neg_rad = SpheresRaw(vec![sphere("5_micron_Al", -5, 100)]);
    assert!(matches!(validate(neg_rad), Err(ParsingError::NonPositive)));
}

#[test]
fn zero_radius_is_rejected_before_proportions() {
    let raw = SpheresRaw(vec![sphere("a", 0, 10), sphere("b", 3, 10)]);
    assert_eq!(validate(raw).unwrap_err(), ParsingError::NonPositive);
}

#[test]
fn proportions_over_hundred_are_rejected() {
    let raw = SpheresRaw(vec![sphere("a", 1, 200), sphere("b", 3, 200)]);
    assert_eq!(validate(raw).unwrap_err(), ParsingError::InvalidProportions);
    let raw = SpheresRaw(vec![sphere("a", 1, 60), sphere("b", 3, 41)]);
    assert_eq!(validate(raw).unwrap_err(), ParsingError::InvalidProportions);
}

#[test]
fn empty_distribution_is_rejected() {
    assert_eq!(validate(SpheresRaw(vec![])).unwrap_err(), ParsingError::InvalidProportions);
}

#[test]
fn accessors_return_fields() {
    let s = sphere("x", 7, 12);
    assert_eq!(s.radius(), 7 * LENGTH_SCALE);
    assert_eq!(s.proportion(), 12);
    assert_eq!(s.name, "x");
}

#[test]
fn two_size_moments() {
    let spheres = validate(valid_spheres_raw()).unwrap();
    let vm = spheres.volume_moment().unwrap();
    let am = spheres.area_moment().unwrap();
    assert_eq!(vm, 2176008250000000000000000000u128);
    assert_eq!(am, 5441650000000000000u128);
    let scale = LENGTH_SCALE as f64;
    let avg_vol = 4.0 * std::f64::consts::PI / 300.0 * (vm as f64) / (scale * scale * scale);
    let expected = 0.66 * (4.0 / 3.0 * std::f64::consts::PI * 125.0)
        + 0.34 * (4.0 / 3.0 * std::f64::consts::PI * 64_000_000.0);
    assert!((avg_vol - expected).abs() / expected < 1e-12);
}

#[test]
fn moments_ignore_record_order() {
    let a = validate(valid_spheres_raw()).unwrap();
    let b = validate(SpheresRaw(vec![sphere("400_AP", 400, 34), sphere("5_micron_Al", 5, 66)]))
        .unwrap();
    assert_eq!(a.volume_moment(), b.volume_moment());
    assert_eq!(a.area_moment(), b.area_moment());
}

#[test]
fn moment_overflow_is_none() {
    let raw = SpheresRaw(vec![ParsedSphere::new(String::from("huge"), i64::MAX, 100)]);
    let spheres = validate(raw).unwrap();
    assert_eq!(spheres.volume_moment(), None);
    assert_eq!(spheres.area_moment(), None);
}

#[test]
fn zero_proportion_large_radius_adds_nothing() {
    let raw = SpheresRaw(vec![
        ParsedSphere::new(String::from("huge"), i64::MAX, 0),
        ParsedSphere::new(String::from("one"), 2, 100),
    ]);
    let spheres = validate(raw).unwrap();
    assert_eq!(spheres.volume_moment(), Some(800));
    assert_eq!(spheres.area_moment(), Some(400));
}

#[test]
fn radius_weights_in_order() {
    let spheres = validate(valid_spheres_raw()).unwrap();
    assert_eq!(
        spheres.radius_weights(),
        vec![(5 * LENGTH_SCALE, 66), (400 * LENGTH_SCALE, 34)]
    );
}

#[test]
fn container_volume_moment_scales_by_target() {
    let spheres = validate(valid_spheres_raw()).unwrap();
    assert_eq!(
        spheres.container_volume_moment(),
        Some(2000u128 * 2176008250000000000000000000u128)
    );
}

#[test]
fn sa_to_vol_ratio_of_two_sizes() {
    let spheres = validate(valid_spheres_raw()).unwrap();
    let (n, d) = spheres.sa_to_vol_ratio().unwrap();
    assert_eq!(n, 2176008250000000000000000000u128);
    assert_eq!(d, 16324950000000000000u128);
    let scale = LENGTH_SCALE as f64;
    let ratio = n as f64 / d as f64 / scale;
    let pi = std::f64::consts::PI;
    let avg_vol = 0.66 * (4.0 / 3.0 * pi * 125.0) + 0.34 * (4.0 / 3.0 * pi * 64_000_000.0);
    let avg_sa = 0.66 * (4.0 * pi * 25.0) + 0.34 * (4.0 * pi * 160_000.0);
    assert!((ratio - avg_vol / avg_sa).abs() < 1e-9);
}

#[test]
fn single_unit_sphere_ratio() {
    let spheres = validate(SpheresRaw(vec![ParsedSphere::new(String::from("u"), 3, 100)])).unwrap();
    assert_eq!(spheres.sa_to_vol_ratio(), Some((2700, 2700)));
    assert_eq!(spheres.container_volume_moment(), Some(5_400_000));
}
