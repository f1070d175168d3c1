//! Boxes made of six rectangles.

use std::rc::Rc;
use vstd::prelude::*;

use crate::aabb::AABB;
use crate::aarect::{XYRect, XZRect, YZRect};
use crate::hittable::{HitRecord, Hittable};
use crate::hittable_list::HittableList;
use crate::material::Material;
use crate::ray::Ray;
use crate::scalar::Scalar;
use crate::util::share;
use crate::vec3::Point3;

verus! {

/// A box with its sides along the axes.
pub struct Box {
    pub box_min: Point3,
    pub box_max: Point3,
    pub sides: HittableList,
}

/// The six sides of the box from `p0` to `p1`: the far and the near side
/// across z, then across y, then across x.
pub open spec fn box_sides(p0: Point3, p1: Point3, ptr: Rc<Material>) -> Seq<Hittable> {
    seq![
        Hittable::XYRect(XYRect { mp: ptr, x0: p0.x, x1: p1.x, y0: p0.y, y1: p1.y, k: p1.z }),
        Hittable::XYRect(XYRect { mp: ptr, x0: p0.x, x1: p1.x, y0: p0.y, y1: p1.y, k: p0.z }),
        Hittable::XZRect(XZRect { mp: ptr, x0: p0.x, x1: p1.x, z0: p0.z, z1: p1.z, k: p1.y }),
        Hittable::XZRect(XZRect { mp: ptr, x0: p0.x, x1: p1.x, z0: p0.z, z1: p1.z, k: p0.y }),
        Hittable::YZRect(YZRect { mp: ptr, y0: p0.y, y1: p1.y, z0: p0.z, z1: p1.z, k: p1.x }),
        Hittable::YZRect(YZRect { mp: ptr, y0: p0.y, y1: p1.y, z0: p0.z, z1: p1.z, k: p0.x }),
    ]
}

impl Box {
    /// The nearest hit on any of the sides.
    pub open spec fn hit_spec(&self, r: &Ray, t_min: Scalar, t_max: Scalar, log_u: Scalar) -> Option<
        HitRecord,
    >
        decreases self,
    {
        self.sides.hit_spec(r, t_min, t_max, log_u)
    }

    /// The box itself, from corner to corner.
    pub open spec fn bounding_box_spec(&self, time0: Scalar, time1: Scalar) -> Option<AABB> {
        Some(AABB::new(self.box_min, self.box_max))
    }

    /// The box from the corner `p0` to the corner `p1`, of one material.
    pub fn new(p0: &Point3, p1: &Point3, ptr: Rc<Material>) -> (b: Box)
        ensures
            b.box_min == *p0,
            b.box_max == *p1,
            b.sides.objects@.len() == 6,
            forall|i: int| 0 <= i < 6 ==> *(#[trigger] b.sides.objects@[i]) == box_sides(*p0, *p1, ptr)[i],
    {
        let mut sides = HittableList::default();
        sides.add(
            Rc::new(Hittable::XYRect(XYRect::new(p0.x(), p1.x(), p0.y(), p1.y(), p1.z(), share(&ptr)))),
        );
        sides.add(
            Rc::new(Hittable::XYRect(XYRect::new(p0.x(), p1.x(), p0.y(), p1.y(), p0.z(), share(&ptr)))),
        );
        sides.add(
            Rc::new(Hittable::XZRect(XZRect::new(p0.x(), p1.x(), p0.z(), p1.z(), p1.y(), share(&ptr)))),
        );
        sides.add(
            Rc::new(Hittable::XZRect(XZRect::new(p0.x(), p1.x(), p0.z(), p1.z(), p0.y(), share(&ptr)))),
        );
        sides.add(
            Rc::new(Hittable::YZRect(YZRect::new(p0.y(), p1.y(), p0.z(), p1.z(), p1.x(), share(&ptr)))),
        );
        sides.add(Rc::new(Hittable::YZRect(YZRect::new(p0.y(), p1.y(), p0.z(), p1.z(), p0.x(), ptr))));
        Box { box_min: *p0, box_max: *p1, sides }
    }

    #[verifier::when_used_as_spec(hit_spec)]
    pub fn hit(&self, r: &Ray, t_min: Scalar, t_max: Scalar, log_u: Scalar) -> (hit: Option<
        HitRecord,
    >)
        ensures
            hit == self.hit_spec(r, t_min, t_max, log_u),
        decreases self,
    {
        self.sides.hit(r, t_min, t_max, log_u)
    }

    #[verifier::when_used_as_spec(bounding_box_spec)]
    pub fn bounding_box(&self, time0: Scalar, time1: Scalar) -> (b: Option<AABB>)
        ensures
            b == self.bounding_box_spec(time0, time1),
    {
        Some(AABB::new(self.box_min, self.box_max))
    }
}

} // verus!
