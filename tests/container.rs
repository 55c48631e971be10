use sphere_pack::container::{cube_root_floor, Ball, ContainerError, Cylinder, Point};
use sphere_pack::parsing::{validate, ParsedSphere, Spheres, SpheresRaw};
use sphere_pack::LENGTH_SCALE;

/// Radius (in steps) of the cylinder sized for 66% of radius 5 and 34% of radius 400.
const RADIUS_A: i64 = 1_935_737_340;

fn origin() -> Point {
    Point { x: 0, y: 0, z: 0 }
}

#[test]
fn cylinder_zero_radius_fails() {
    assert!(matches!(
        Cylinder::new(origin(), 0, 10),
        Err(ContainerError::NonPositiveDimension)
    ));
}

#[test]
fn cylinder_zero_height_fails() {
    assert!(matches!(
        Cylinder::new(origin(), 10, 0),
        Err(ContainerError::NonPositiveDimension)
    ));
    assert!(Cylinder::new(origin(), -1, 5).is_err());
}

#[test]
fn cylinder_center_is_height_above_base() {
    let c = Cylinder::new(Point { x: 1, y: 2, z: 3 }, 4, 10).unwrap();
    assert_eq!(c.center(), Point { x: 1, y: 2, z: 13 });
    assert_eq!(c.radius(), 4);
    assert_eq!(c.height(), 10);
}

#[test]
fn cylinder_volume_over_pi() {
    let c = Cylinder::new(origin(), 3, 8).unwrap();
    assert_eq!(c.volume_over_pi(), Some(72));
    let big = Cylinder::new(origin(), i64::MAX, i64::MAX).unwrap();
    assert_eq!(big.volume_over_pi(), None);
}

#[test]
fn cylinder_containment_as_defined() {
    let c = Cylinder::new(origin(), 100, 100).unwrap();
    let small = Ball { center: Point { x: 0, y: 0, z: 100 }, radius: 1 };
    assert!(!c.contains(&small));
    let wide = Ball { center: Point { x: 0, y: 0, z: 100 }, radius: 200 };
    assert!(!c.contains(&wide));
}

#[test]
fn cube_root_floor_values() {
    assert_eq!(cube_root_floor(0), 0);
    assert_eq!(cube_root_floor(26), 2);
    assert_eq!(cube_root_floor(27), 3);
    assert_eq!(cube_root_floor((1u128 << 120) - 1), (1u64 << 40) - 1);
}

fn spheres_of(records: Vec<(i64, u8)>) -> Spheres {
    let raw = SpheresRaw(
        records
            .into_iter()
            .map(|(r, p)| ParsedSphere::new(String::from("s"), r, p))
            .collect(),
    );
    validate(raw).unwrap()
}

#[test]
fn sized_cylinder_for_single_size() {
    // M = 2000 * 100 * 27 = 5_400_000; r^3 <= M / 600 = 9000 gives r = 20.
    let c = Cylinder::sized_for(&spheres_of(vec![(3, 100)])).unwrap();
    assert_eq!(c.radius(), 20);
    assert_eq!(c.height(), 160);
    assert_eq!(c.center(), Point { x: 0, y: 0, z: 160 });
}

#[test]
fn sized_cylinder_for_two_sizes() {
    let s = spheres_of(vec![(5 * LENGTH_SCALE, 66), (400 * LENGTH_SCALE, 34)]);
    let c = Cylinder::sized_for(&s).unwrap();
    assert_eq!(c.radius(), RADIUS_A);
    assert_eq!(c.height(), 8 * RADIUS_A);
}

#[test]
fn sized_cylinder_too_large() {
    let s = spheres_of(vec![(i64::MAX, 100)]);
    assert!(matches!(Cylinder::sized_for(&s), Err(ContainerError::VolumeTooLarge)));
}
