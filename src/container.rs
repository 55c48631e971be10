//! Cylindrical container geometry on fixed-point coordinates.
use crate::parsing::{volume_moment, Spheres};
use crate::{CYLINDER_ASPECT, TARGET_SPHERE_COUNT, VOLUME_MARGIN};
use vstd::prelude::*;

verus! {

/// A point in space, in fixed-point steps.
#[derive(Clone, Copy, Debug, PartialEq, Eq, Structural)]
pub struct Point {
    pub x: i64,
    pub y: i64,
    pub z: i64,
}

/// A candidate sphere: its center and radius.
#[derive(Clone, Copy, Debug, PartialEq, Eq, Structural)]
pub struct Ball {
    pub center: Point,
    pub radius: i64,
}

/// Why a container could not be built.
#[derive(Debug, PartialEq, Eq, Structural)]
pub enum ContainerError {
    /// A radius or a height is zero or negative.
    NonPositiveDimension,
    /// The target volume does not fit the fixed-point range.
    VolumeTooLarge,
}

pub open spec fn sq(v: int) -> int {
    v * v
}

pub open spec fn cube(v: int) -> int {
    v * v * v
}

/// The largest `r` with `r³ ≤ q`.
pub fn cube_root_floor(q: u128) -> (r: u64)
    requires
        q < 0x1000000000000000000000000000000,
    ensures
        cube(r as int) <= q < cube(r as int + 1),
{
    let mut lo: u64 = 0;
    let mut hi: u64 = 0x10000000000;
    assert(cube(hi as int) == 0x1000000000000000000000000000000) by (nonlinear_arith)
        requires
            hi == 0x10000000000,
    ;
    while hi - lo > 1
        invariant
            lo < hi <= 0x10000000000,
            cube(lo as int) <= q < cube(hi as int),
        decreases hi - lo,
    {
        let mid: u64 = lo + (hi - lo) / 2;
        let m = mid as u128;
        assert(m * m <= 0x100000000000000000000) by (nonlinear_arith)
            requires
                m <= 0x10000000000,
        ;
        assert(m * m * m <= 0x1000000000000000000000000000000) by (nonlinear_arith)
            requires
                m <= 0x10000000000,
        ;
        if m * m * m <= q {
            lo = mid;
        } else {
            hi = mid;
        }
    }
    lo
}

/// The containment predicate of a cylinder of radius `r` and height `h` centred
/// at `c`, as this container defines it:
/// the container radius is below the ball's radius, the ball's vertical extent
/// lies in the window `[c.z - h/2, c.z + h/2]`, and the ball's center lies within
/// `r - ball.radius` of `c` (full 3D distance).
///
/// Note that the first condition is the reverse of a geometric containment test;
/// with it the distance bound is negative and the predicate never holds (see
/// `lemma_cylinder_contains_nothing`).
pub open spec fn cylinder_contains(r: int, h: int, c: Point, b: Ball) -> bool {
    &&& r < b.radius
    &&& 2 * c.z - h <= 2 * (b.center.z - b.radius)
    &&& 2 * (b.center.z + b.radius) <= 2 * c.z + h
    &&& r - b.radius >= 0
    &&& sq(b.center.x - c.x) + sq(b.center.y - c.y) + sq(b.center.z - c.z) <= sq(r - b.radius)
}

/// With the radius comparison as written, no ball is ever inside a cylinder.
pub proof fn lemma_cylinder_contains_nothing(r: int, h: int, c: Point, b: Ball)
    ensures
        !cylinder_contains(r, h, c, b),
{
}

/// A cylinder standing on a base point; its center lies `height` above the base.
pub struct Cylinder {
    radius: i64,
    height: i64,
    center: Point,
}

impl Cylinder {
    #[verifier::type_invariant]
    spec fn inv(self) -> bool {
        self.radius > 0 && self.height > 0
    }

    pub closed spec fn radius_spec(&self) -> int {
        self.radius as int
    }

    pub closed spec fn height_spec(&self) -> int {
        self.height as int
    }

    pub closed spec fn center_spec(&self) -> Point {
        self.center
    }

    /// Build a cylinder from its base point, radius and height; both dimensions
    /// must be positive.
    pub fn new(base: Point, radius: i64, height: i64) -> (r: Result<Cylinder, ContainerError>)
        requires
            height <= 0 || base.z + height <= i64::MAX,
        ensures
            r.is_ok() <==> radius > 0 && height > 0,
            r matches Ok(c) ==> {
                &&& c.radius_spec() == radius
                &&& c.height_spec() == height
                &&& c.center_spec() == (Point { x: base.x, y: base.y, z: (base.z + height) as i64 })
            },
            r matches Err(e) ==> e == ContainerError::NonPositiveDimension,
    {
        if radius <= 0 || height <= 0 {
            return Err(ContainerError::NonPositiveDimension);
        }
        let center = Point { x: base.x, y: base.y, z: base.z + height };
        Ok(Cylinder { radius, height, center })
    }

    /// The cylinder of the sizing heuristic, standing on the origin: with
    /// `M = VOLUME_MARGIN · TARGET_SPHERE_COUNT · Σ pᵢ·rᵢ³`, the container volume is
    /// `V = 4π·M/300`, and the radius solves `π·r²·(CYLINDER_ASPECT·r) = V`, rounded
    /// down to a whole step; the height is `CYLINDER_ASPECT` times the radius.
    pub fn sized_for(spheres: &Spheres) -> (r: Result<Cylinder, ContainerError>)
        ensures
            ({
                let m = VOLUME_MARGIN * TARGET_SPHERE_COUNT * volume_moment(spheres@);
                match r {
                    Ok(c) => {
                        &&& 300 * CYLINDER_ASPECT * cube(c.radius_spec()) <= 4 * m
                        &&& 4 * m < 300 * CYLINDER_ASPECT * cube(c.radius_spec() + 1)
                        &&& c.height_spec() == CYLINDER_ASPECT * c.radius_spec()
                        &&& c.center_spec() == (Point { x: 0, y: 0, z: c.height_spec() as i64 })
                    },
                    Err(ContainerError::VolumeTooLarge) => m > u128::MAX,
                    Err(ContainerError::NonPositiveDimension) => 4 * m < 300 * CYLINDER_ASPECT,
                }
            }),
    {
        let m = match spheres.container_volume_moment() {
            Some(v) => v,
            None => return Err(ContainerError::VolumeTooLarge),
        };
        let q = m / 600;
        assert(q < 0x1000000000000000000000000000000);
        let root = cube_root_floor(q);
        proof {
            let ri = root as int;
            assert(600 * cube(ri) <= m && m < 600 * cube(ri + 1)) by (nonlinear_arith)
                requires
                    cube(ri) <= q,
                    q < cube(ri + 1),
                    q == m / 600,
                    cube(ri) == ri * ri * ri,
                    cube(ri + 1) == (ri + 1) * (ri + 1) * (ri + 1),
            ;
        }
        if root == 0 {
            assert(cube(1) == 1);
            assert(m < 600);
            return Err(ContainerError::NonPositiveDimension);
        }
        assert(root < 0x10000000000) by (nonlinear_arith)
            requires
                root * root * root <= q,
                q < 0x1000000000000000000000000000000,
        ;
        let radius = root as i64;
        let height = radius * (CYLINDER_ASPECT as i64);
        Cylinder::new(Point { x: 0, y: 0, z: 0 }, radius, height)
    }

    pub fn radius(&self) -> (r: i64)
        ensures
            r == self.radius_spec(),
            r > 0,
    {
        proof {
            use_type_invariant(self);
        }
        self.radius
    }

    pub fn height(&self) -> (r: i64)
        ensures
            r == self.height_spec(),
            r > 0,
    {
        proof {
            use_type_invariant(self);
        }
        self.height
    }

    pub fn center(&self) -> (r: Point)
        ensures
            r == self.center_spec(),
    {
        self.center
    }

    /// Whether `ball` counts as inside this cylinder (see `cylinder_contains`).
    pub fn contains(&self, ball: &Ball) -> (r: bool)
        ensures
            r == cylinder_contains(self.radius_spec(), self.height_spec(), self.center_spec(), *ball),
    {
        let r = self.radius as i128;
        let h = self.height as i128;
        let c = self.center;
        let br = ball.radius as i128;
        let bz = ball.center.z as i128;
        let d = r - br;
        r < br && 2 * (c.z as i128) - h <= 2 * (bz - br) && 2 * (bz + br) <= 2 * (c.z as i128) + h
            && d >= 0 && {
            let dx = ball.center.x as i128 - c.x as i128;
            let dy = ball.center.y as i128 - c.y as i128;
            let dz = bz - c.z as i128;
            dx * dx + dy * dy + dz * dz <= d * d
        }
    }

    /// `r²·h`: the volume divided by π, or `None` when it exceeds `u128::MAX`.
    pub fn volume_over_pi(&self) -> (v: Option<u128>)
        ensures
            match v {
                Some(m) => m == sq(self.radius_spec()) * self.height_spec(),
                None => sq(self.radius_spec()) * self.height_spec() > u128::MAX,
            },
    {
        proof {
            use_type_invariant(self);
        }
        let r = self.radius as u128;
        let h = self.height as u128;
        assert(r * r <= u128::MAX) by (nonlinear_arith)
            requires
                0 < r <= i64::MAX,
        ;
        (r * r).checked_mul(h)
    }
}

} // verus!
