//! Rectangles that lie in a plane across one of the axes.

use std::rc::Rc;
use vstd::prelude::*;

use crate::aabb::AABB;
use crate::hittable::{faces_front, facing_normal, HitRecord};
use crate::material::Material;
use crate::ray::Ray;
use crate::scalar::Scalar;
use crate::util::share;
use crate::vec3::{Point3, Vec3};

verus! {

/// A rectangle in the plane `z = k`.
pub struct XYRect {
    pub mp: Rc<Material>,
    pub x0: Scalar,
    pub x1: Scalar,
    pub y0: Scalar,
    pub y1: Scalar,
    pub k: Scalar,
}

/// A rectangle in the plane `y = k`.
pub struct XZRect {
    pub mp: Rc<Material>,
    pub x0: Scalar,
    pub x1: Scalar,
    pub z0: Scalar,
    pub z1: Scalar,
    pub k: Scalar,
}

/// A rectangle in the plane `x = k`.
pub struct YZRect {
    pub mp: Rc<Material>,
    pub y0: Scalar,
    pub y1: Scalar,
    pub z0: Scalar,
    pub z1: Scalar,
    pub k: Scalar,
}

/// The extent of a rectangle within its plane: from `a0` to `a1` on the
/// plane's first axis, from `b0` to `b1` on its second.
#[derive(Clone, Copy, Debug, PartialEq, Eq, Structural)]
pub struct Extent {
    pub a0: Scalar,
    pub a1: Scalar,
    pub b0: Scalar,
    pub b1: Scalar,
}

/// Half the thickness of the box round a rectangle: `10^-4`.
pub open spec fn padding_spec() -> Scalar {
    Scalar::from_ratio(1, 10_000)
}

/// The unit vector along an axis: 0 is x, 1 is y, anything else is z.
pub open spec fn axis_unit_spec(axis: usize) -> Vec3 {
    Vec3 {
        x: if axis == 0 { Scalar::one() } else { Scalar::zero() },
        y: if axis == 1 { Scalar::one() } else { Scalar::zero() },
        z: if axis != 0 && axis != 1 { Scalar::one() } else { Scalar::zero() },
    }
}

/// The parameter at which the ray crosses the plane where the coordinate of
/// the axis `fixed` is `k`.
pub open spec fn plane_crossing(fixed: usize, k: Scalar, r: &Ray) -> Scalar {
    k.sub(r.orig.index(fixed)).div(r.dir.index(fixed))
}

/// Whether the point's coordinates on the axes `first` and `second` lie
/// within the extent, borders included.
pub open spec fn within_extent(p: Point3, first: usize, second: usize, e: Extent) -> bool {
    e.a0.raw <= p.index(first).raw <= e.a1.raw && e.b0.raw <= p.index(second).raw <= e.b1.raw
}

/// The hit of a ray on the rectangle that lies across the axis `fixed` at
/// `k` and has the extent `e` on the axes `first` and `second`: the ray must
/// cross the plane within the interval and within the extent. The surface
/// coordinates are the shares of the extent that lie before the point.
pub open spec fn rect_hit_spec(
    first: usize,
    second: usize,
    fixed: usize,
    e: Extent,
    k: Scalar,
    mp: Rc<Material>,
    r: &Ray,
    t_min: Scalar,
    t_max: Scalar,
) -> Option<HitRecord> {
    let t = plane_crossing(fixed, k, r);
    let p = r.at(t);
    if t.lt(t_min) || t.gt(t_max) || !within_extent(p, first, second, e) {
        None
    } else {
        Some(
            HitRecord {
                p,
                normal: facing_normal(r.dir, axis_unit_spec(fixed)),
                mat_ptr: mp,
                t,
                u: p.index(first).sub(e.a0).div(e.a1.sub(e.a0)),
                v: p.index(second).sub(e.b0).div(e.b1.sub(e.b0)),
                front_face: faces_front(r.dir, axis_unit_spec(fixed)),
            },
        )
    }
}

/// The point with the coordinates `a`, `b` and `c` on the axes `first`,
/// `second` and `fixed`, which are 0, 1 and 2 in some order.
pub open spec fn place(first: usize, second: usize, fixed: usize, a: Scalar, b: Scalar, c: Scalar) -> Point3 {
    Vec3 {
        x: if first == 0 { a } else if second == 0 { b } else { c },
        y: if first == 1 { a } else if second == 1 { b } else { c },
        z: if first == 2 { a } else if second == 2 { b } else { c },
    }
}

/// The box round a rectangle: its extent, and the padding to either side of
/// its plane.
pub open spec fn rect_box_spec(first: usize, second: usize, fixed: usize, e: Extent, k: Scalar) -> AABB {
    AABB::new(
        place(first, second, fixed, e.a0, e.b0, k.sub(padding_spec())),
        place(first, second, fixed, e.a1, e.b1, k.add(padding_spec())),
    )
}

fn axis_unit(axis: usize) -> (v: Vec3)
    ensures
        v == axis_unit_spec(axis),
{
    Vec3 {
        x: if axis == 0 { Scalar::one() } else { Scalar::zero() },
        y: if axis == 1 { Scalar::one() } else { Scalar::zero() },
        z: if axis != 0 && axis != 1 { Scalar::one() } else { Scalar::zero() },
    }
}

fn place_of(first: usize, second: usize, fixed: usize, a: Scalar, b: Scalar, c: Scalar) -> (p: Point3)
    ensures
        p == place(first, second, fixed, a, b, c),
{
    Vec3 {
        x: if first == 0 { a } else if second == 0 { b } else { c },
        y: if first == 1 { a } else if second == 1 { b } else { c },
        z: if first == 2 { a } else if second == 2 { b } else { c },
    }
}

fn rect_hit(
    first: usize,
    second: usize,
    fixed: usize,
    e: Extent,
    k: Scalar,
    mp: &Rc<Material>,
    r: &Ray,
    t_min: Scalar,
    t_max: Scalar,
) -> (hit: Option<HitRecord>)
    ensures
        hit == rect_hit_spec(first, second, fixed, e, k, *mp, r, t_min, t_max),
{
    let t = k.sub(r.origin().index(fixed)).div(r.direction().index(fixed));
    if t.lt(t_min) || t.gt(t_max) {
        return None;
    }
    let p = r.at(t);
    let x = p.index(first);
    let y = p.index(second);
    if x.lt(e.a0) || x.gt(e.a1) || y.lt(e.b0) || y.gt(e.b1) {
        return None;
    }
    let mut record = HitRecord {
        p,
        normal: Vec3::zero(),
        mat_ptr: share(mp),
        t,
        u: x.sub(e.a0).div(e.a1.sub(e.a0)),
        v: y.sub(e.b0).div(e.b1.sub(e.b0)),
        front_face: false,
    };
    let outward_normal = axis_unit(fixed);
    record.set_face_normal(r, &outward_normal);
    Some(record)
}

fn rect_box(first: usize, second: usize, fixed: usize, e: Extent, k: Scalar) -> (b: AABB)
    ensures
        b == rect_box_spec(first, second, fixed, e, k),
{
    let padding = Scalar::from_ratio(1, 10_000);
    AABB::new(
        place_of(first, second, fixed, e.a0, e.b0, k.sub(padding)),
        place_of(first, second, fixed, e.a1, e.b1, k.add(padding)),
    )
}

impl XYRect {
    pub open spec fn extent(&self) -> Extent {
        Extent { a0: self.x0, a1: self.x1, b0: self.y0, b1: self.y1 }
    }

    /// The hit of the ray where it crosses the plane `z = k` inside the
    /// rectangle; the normal is along z.
    pub open spec fn hit_spec(&self, r: &Ray, t_min: Scalar, t_max: Scalar) -> Option<HitRecord> {
        rect_hit_spec(0, 1, 2, self.extent(), self.k, self.mp, r, t_min, t_max)
    }

    pub open spec fn bounding_box_spec(&self, time0: Scalar, time1: Scalar) -> Option<AABB> {
        Some(rect_box_spec(0, 1, 2, self.extent(), self.k))
    }

    pub fn new(x0: Scalar, x1: Scalar, y0: Scalar, y1: Scalar, k: Scalar, mp: Rc<Material>) -> (r:
        XYRect)
        ensures
            r.extent() == (Extent { a0: x0, a1: x1, b0: y0, b1: y1 }),
            r.k == k,
            r.mp == mp,
    {
        XYRect { mp, x0, x1, y0, y1, k }
    }

    #[verifier::when_used_as_spec(hit_spec)]
    pub fn hit(&self, r: &Ray, t_min: Scalar, t_max: Scalar) -> (hit: Option<HitRecord>)
        ensures
            hit == self.hit_spec(r, t_min, t_max),
    {
        let e = Extent { a0: self.x0, a1: self.x1, b0: self.y0, b1: self.y1 };
        rect_hit(0, 1, 2, e, self.k, &self.mp, r, t_min, t_max)
    }

    #[verifier::when_used_as_spec(bounding_box_spec)]
    pub fn bounding_box(&self, time0: Scalar, time1: Scalar) -> (b: Option<AABB>)
        ensures
            b == self.bounding_box_spec(time0, time1),
    {
        let e = Extent { a0: self.x0, a1: self.x1, b0: self.y0, b1: self.y1 };
        Some(rect_box(0, 1, 2, e, self.k))
    }
}

impl XZRect {
    pub open spec fn extent(&self) -> Extent {
        Extent { a0: self.x0, a1: self.x1, b0: self.z0, b1: self.z1 }
    }

    /// The hit of the ray where it crosses the plane `y = k` inside the
    /// rectangle; the normal is along y.
    pub open spec fn hit_spec(&self, r: &Ray, t_min: Scalar, t_max: Scalar) -> Option<HitRecord> {
        rect_hit_spec(0, 2, 1, self.extent(), self.k, self.mp, r, t_min, t_max)
    }

    pub open spec fn bounding_box_spec(&self, time0: Scalar, time1: Scalar) -> Option<AABB> {
        Some(rect_box_spec(0, 2, 1, self.extent(), self.k))
    }

    pub fn new(x0: Scalar, x1: Scalar, z0: Scalar, z1: Scalar, k: Scalar, mp: Rc<Material>) -> (r:
        XZRect)
        ensures
            r.extent() == (Extent { a0: x0, a1: x1, b0: z0, b1: z1 }),
            r.k == k,
            r.mp == mp,
    {
        XZRect { mp, x0, x1, z0, z1, k }
    }

    #[verifier::when_used_as_spec(hit_spec)]
    pub fn hit(&self, r: &Ray, t_min: Scalar, t_max: Scalar) -> (hit: Option<HitRecord>)
        ensures
            hit == self.hit_spec(r, t_min, t_max),
    {
        let e = Extent { a0: self.x0, a1: self.x1, b0: self.z0, b1: self.z1 };
        rect_hit(0, 2, 1, e, self.k, &self.mp, r, t_min, t_max)
    }

    #[verifier::when_used_as_spec(bounding_box_spec)]
    pub fn bounding_box(&self, time0: Scalar, time1: Scalar) -> (b: Option<AABB>)
        ensures
            b == self.bounding_box_spec(time0, time1),
    {
        let e = Extent { a0: self.x0, a1: self.x1, b0: self.z0, b1: self.z1 };
        Some(rect_box(0, 2, 1, e, self.k))
    }
}

impl YZRect {
    pub open spec fn extent(&self) -> Extent {
        Extent { a0: self.y0, a1: self.y1, b0: self.z0, b1: self.z1 }
    }

    /// The hit of the ray where it crosses the plane `x = k` inside the
    /// rectangle; the normal is along x.
    pub open spec fn hit_spec(&self, r: &Ray, t_min: Scalar, t_max: Scalar) -> Option<HitRecord> {
        rect_hit_spec(1, 2, 0, self.extent(), self.k, self.mp, r, t_min, t_max)
    }

    pub open spec fn bounding_box_spec(&self, time0: Scalar, time1: Scalar) -> Option<AABB> {
        Some(rect_box_spec(1, 2, 0, self.extent(), self.k))
    }

    pub fn new(y0: Scalar, y1: Scalar, z0: Scalar, z1: Scalar, k: Scalar, mp: Rc<Material>) -> (r:
        YZRect)
        ensures
            r.extent() == (Extent { a0: y0, a1: y1, b0: z0, b1: z1 }),
            r.k == k,
            r.mp == mp,
    {
        YZRect { mp, y0, y1, z0, z1, k }
    }

    #[verifier::when_used_as_spec(hit_spec)]
    pub fn hit(&self, r: &Ray, t_min: Scalar, t_max: Scalar) -> (hit: Option<HitRecord>)
        ensures
            hit == self.hit_spec(r, t_min, t_max),
    {
        let e = Extent { a0: self.y0, a1: self.y1, b0: self.z0, b1: self.z1 };
        rect_hit(1, 2, 0, e, self.k, &self.mp, r, t_min, t_max)
    }

    #[verifier::when_used_as_spec(bounding_box_spec)]
    pub fn bounding_box(&self, time0: Scalar, time1: Scalar) -> (b: Option<AABB>)
        ensures
            b == self.bounding_box_spec(time0, time1),
    {
        let e = Extent { a0: self.y0, a1: self.y1, b0: self.z0, b1: self.z1 };
        Some(rect_box(1, 2, 0, e, self.k))
    }
}

} // verus!
