//! Spheres that move in a straight line while the shutter is open.

use std::rc::Rc;
use vstd::prelude::*;

use crate::aabb::{surrounding_box, AABB};
use crate::hittable::{faces_front, facing_normal, HitRecord};
use crate::material::Material;
use crate::ray::Ray;
use crate::scalar::Scalar;
use crate::sphere::{
    first_root_in_range, in_range, lemma_roots_in_order, sphere_roots, sphere_uv_spec, Sphere,
};
use crate::util::share;
use crate::vec3::{Point3, Vec3};

verus! {

/// A sphere whose centre is at `center0` at `time0` and at `center1` at
/// `time1`.
pub struct MovingSphere {
    pub center0: Point3,
    pub center1: Point3,
    pub time0: Scalar,
    pub time1: Scalar,
    pub radius: Scalar,
    pub mat_ptr: Rc<Material>,
}

impl MovingSphere {
    /// The centre at the given time, on the line through the two given
    /// centres.
    pub open spec fn center_spec(&self, time: Scalar) -> Point3 {
        self.center0.add(
            self.center1.sub(self.center0).scale(
                time.sub(self.time0).div(self.time1.sub(self.time0)),
            ),
        )
    }

    /// The record of the hit at parameter `t` of the ray `r`.
    pub open spec fn record_at(&self, r: &Ray, t: Scalar) -> HitRecord {
        let p = r.at(t);
        let outward_normal = p.sub(self.center_spec(r.tm)).div(self.radius);
        let uv = sphere_uv_spec(&outward_normal);
        HitRecord {
            p,
            t,
            normal: facing_normal(r.dir, outward_normal),
            front_face: faces_front(r.dir, outward_normal),
            mat_ptr: self.mat_ptr,
            u: uv.0,
            v: uv.1,
        }
    }

    /// The nearest hit, in the interval, of the ray on the sphere where it is
    /// at the ray's time.
    pub open spec fn hit_spec(&self, r: &Ray, t_min: Scalar, t_max: Scalar) -> Option<HitRecord> {
        match first_root_in_range(sphere_roots(self.center_spec(r.tm), self.radius, r), t_min, t_max) {
            None => None,
            Some(t) => Some(self.record_at(r, t)),
        }
    }

    /// The box round the sphere at one time.
    pub open spec fn box_at(&self, time: Scalar) -> AABB {
        let reach = Vec3 { x: self.radius, y: self.radius, z: self.radius };
        AABB::new(self.center_spec(time).sub(reach), self.center_spec(time).add(reach))
    }

    /// The box round the sphere's two positions at the ends of the interval.
    pub open spec fn bounding_box_spec(&self, time0: Scalar, time1: Scalar) -> Option<AABB> {
        Some(surrounding_box(self.box_at(time0), self.box_at(time1)))
    }

    pub fn new(
        center0: Point3,
        center1: Point3,
        time0: Scalar,
        time1: Scalar,
        radius: Scalar,
        mat_ptr: Rc<Material>,
    ) -> (s: MovingSphere)
        ensures
            s.center0 == center0,
            s.center1 == center1,
            s.time0 == time0,
            s.time1 == time1,
            s.radius == radius,
            s.mat_ptr == mat_ptr,
    {
        MovingSphere { center0, center1, time0, time1, radius, mat_ptr }
    }

    #[verifier::when_used_as_spec(center_spec)]
    pub fn center(&self, time: Scalar) -> (c: Point3)
        ensures
            c == self.center_spec(time),
    {
        self.center0.add(
            self.center1.sub(self.center0).scale(
                time.sub(self.time0).div(self.time1.sub(self.time0)),
            ),
        )
    }

    #[verifier::when_used_as_spec(hit_spec)]
    pub fn hit(&self, r: &Ray, t_min: Scalar, t_max: Scalar) -> (hit: Option<HitRecord>)
        ensures
            hit == self.hit_spec(r, t_min, t_max),
    {
        let center = self.center(r.time());
        let root = match first_root_in_range(sphere_roots(center, self.radius, r), t_min, t_max) {
            None => {
                return None;
            },
            Some(root) => root,
        };
        let p = r.at(root);
        let outward_normal = p.sub(center).div(self.radius);
        let (u, v) = Sphere::get_sphere_uv(&outward_normal);
        let mut rec = HitRecord {
            p,
            t: root,
            normal: Vec3::zero(),
            front_face: false,
            mat_ptr: share(&self.mat_ptr),
            u,
            v,
        };
        rec.set_face_normal(r, &outward_normal);
        Some(rec)
    }

    #[verifier::when_used_as_spec(bounding_box_spec)]
    pub fn bounding_box(&self, time0: Scalar, time1: Scalar) -> (b: Option<AABB>)
        ensures
            b == self.bounding_box_spec(time0, time1),
    {
        let reach = Vec3::new(self.radius, self.radius, self.radius);
        let box0 = AABB::new(self.center(time0).sub(reach), self.center(time0).add(reach));
        let box1 = AABB::new(self.center(time1).sub(reach), self.center(time1).add(reach));
        Some(surrounding_box(box0, box1))
    }
}

/// A moving sphere is hit, where it is at the ray's time, at the first of its
/// two roots that lies in the interval, and not at all where the ray passes
/// by or both roots lie outside.
pub proof fn lemma_moving_hit_is_first_root_in_range(
    s: MovingSphere,
    r: Ray,
    t_min: Scalar,
    t_max: Scalar,
)
    ensures
        match sphere_roots(s.center(r.tm), s.radius, &r) {
            None => s.hit(&r, t_min, t_max) is None,
            Some((near, far)) => {
                &&& near.raw <= far.raw
                &&& in_range(near, t_min, t_max) ==> s.hit(&r, t_min, t_max) == Some(
                    s.record_at(&r, near),
                )
                &&& !in_range(near, t_min, t_max) && in_range(far, t_min, t_max) ==> s.hit(
                    &r,
                    t_min,
                    t_max,
                ) == Some(s.record_at(&r, far))
                &&& !in_range(near, t_min, t_max) && !in_range(far, t_min, t_max) ==> s.hit(
                    &r,
                    t_min,
                    t_max,
                ) is None
            },
        },
        s.hit(&r, t_min, t_max) matches Some(rec) ==> in_range(rec.t, t_min, t_max),
{
    lemma_roots_in_order(s.center(r.tm), s.radius, r);
}

} // verus!
