//! Spheres.

use std::rc::Rc;
use vstd::prelude::*;

use crate::aabb::AABB;
use crate::hittable::{faces_front, facing_normal, HitRecord};
use crate::material::Material;
use crate::ray::Ray;
use crate::scalar::{lemma_div_monotone, lemma_sqrt_not_negative, lemma_square_not_negative, Scalar};
use crate::util::share;
use crate::vec3::{dot, Point3, Vec3};

verus! {

/// A sphere at rest.
pub struct Sphere {
    pub center: Point3,
    pub radius: Scalar,
    pub mat_ptr: Rc<Material>,
}

/// The discriminant, over four, of the equation `|O + t D - C|^2 = radius^2`
/// for the parameter `t` of the ray `r`.
pub open spec fn sphere_discriminant(center: Point3, radius: Scalar, r: &Ray) -> Scalar {
    let oc = r.orig.sub(center);
    let a = r.dir.length_squared();
    let half_b = dot(&oc, &r.dir);
    let c = oc.length_squared().sub(radius.mul(radius));
    half_b.mul(half_b).sub(a.mul(c))
}

/// The two parameters at which the ray `r` meets the sphere, the smaller
/// first; `None` where the discriminant is negative and the ray passes by.
pub open spec fn sphere_roots_spec(center: Point3, radius: Scalar, r: &Ray) -> Option<
    (Scalar, Scalar),
> {
    let oc = r.orig.sub(center);
    let a = r.dir.length_squared();
    let half_b = dot(&oc, &r.dir);
    let discriminant = sphere_discriminant(center, radius, r);
    if discriminant.lt(Scalar::zero()) {
        None
    } else {
        let sqrtd = discriminant.sqrt();
        Some((half_b.neg().sub(sqrtd).div(a), half_b.neg().add(sqrtd).div(a)))
    }
}

/// Whether `t` lies in the closed interval from `t_min` to `t_max`.
pub open spec fn in_range(t: Scalar, t_min: Scalar, t_max: Scalar) -> bool {
    t_min.raw <= t.raw <= t_max.raw
}

/// The root that counts as the hit: the smaller one if it lies in the
/// interval, else the larger one if that does, else none.
pub open spec fn first_root_in_range_spec(
    roots: Option<(Scalar, Scalar)>,
    t_min: Scalar,
    t_max: Scalar,
) -> Option<Scalar> {
    match roots {
        None => None,
        Some((near, far)) => if in_range(near, t_min, t_max) {
            Some(near)
        } else if in_range(far, t_min, t_max) {
            Some(far)
        } else {
            None
        },
    }
}

/// The surface coordinates of a point `p` of the unit sphere: `u` is the
/// angle round the y axis, from the negative x axis, and `v` the angle up
/// from the south pole, each as a share of its full range.
pub open spec fn sphere_uv_spec(p: &Point3) -> (Scalar, Scalar) {
    let theta = p.y.neg().acos();
    let phi = p.z.atan2(p.x).neg().add(Scalar::pi());
    (phi.div(Scalar::from_int(2).mul(Scalar::pi())), theta.div(Scalar::pi()))
}

#[verifier::when_used_as_spec(sphere_roots_spec)]
pub fn sphere_roots(center: Point3, radius: Scalar, r: &Ray) -> (roots: Option<(Scalar, Scalar)>)
    ensures
        roots == sphere_roots_spec(center, radius, r),
{
    let oc = r.origin().sub(center);
    let a = r.direction().length_squared();
    let half_b = dot(&oc, &r.direction());
    let c = oc.length_squared().sub(radius.mul(radius));
    let discriminant = half_b.mul(half_b).sub(a.mul(c));
    if discriminant.lt(Scalar::zero()) {
        return None;
    }
    let sqrtd = discriminant.sqrt();
    Some((half_b.neg().sub(sqrtd).div(a), half_b.neg().add(sqrtd).div(a)))
}

#[verifier::when_used_as_spec(first_root_in_range_spec)]
pub fn first_root_in_range(roots: Option<(Scalar, Scalar)>, t_min: Scalar, t_max: Scalar) -> (root:
    Option<Scalar>)
    ensures
        root == first_root_in_range_spec(roots, t_min, t_max),
{
    match roots {
        None => None,
        Some((near, far)) => {
            let mut root = near;
            if root.lt(t_min) || t_max.lt(root) {
                root = far;
                if root.lt(t_min) || t_max.lt(root) {
                    return None;
                }
            }
            Some(root)
        },
    }
}

impl Sphere {
    /// The record of the hit at parameter `t` of the ray `r`.
    pub open spec fn record_at(&self, r: &Ray, t: Scalar) -> HitRecord {
        let p = r.at(t);
        let outward_normal = p.sub(self.center).div(self.radius);
        let uv = sphere_uv_spec(&outward_normal);
        HitRecord {
            p,
            t,
            normal: facing_normal(r.dir, outward_normal),
            front_face: faces_front(r.dir, outward_normal),
            mat_ptr: self.mat_ptr,
            u: uv.0,
            v: uv.1,
        }
    }

    /// The nearest hit of the ray on the sphere with a parameter in the
    /// interval from `t_min` to `t_max`.
    pub open spec fn hit_spec(&self, r: &Ray, t_min: Scalar, t_max: Scalar) -> Option<HitRecord> {
        match first_root_in_range(sphere_roots(self.center, self.radius, r), t_min, t_max) {
            None => None,
            Some(t) => Some(self.record_at(r, t)),
        }
    }

    /// The box from the centre minus the radius to the centre plus the radius,
    /// on each axis.
    pub open spec fn bounding_box_spec(&self, time0: Scalar, time1: Scalar) -> Option<AABB> {
        let reach = Vec3 { x: self.radius, y: self.radius, z: self.radius };
        Some(AABB::new(self.center.sub(reach), self.center.add(reach)))
    }

    pub fn new(center: Vec3, radius: Scalar, mat_ptr: Rc<Material>) -> (s: Sphere)
        ensures
            s.center == center,
            s.radius == radius,
            s.mat_ptr == mat_ptr,
    {
        Sphere { center, radius, mat_ptr }
    }

    pub fn get_sphere_uv(p: &Point3) -> (uv: (Scalar, Scalar))
        ensures
            uv == sphere_uv_spec(p),
    {
        let theta = p.y().neg().acos();
        let phi = p.z().atan2(p.x()).neg().add(Scalar::pi());
        (phi.div(Scalar::from_int(2).mul(Scalar::pi())), theta.div(Scalar::pi()))
    }

    #[verifier::when_used_as_spec(hit_spec)]
    pub fn hit(&self, r: &Ray, t_min: Scalar, t_max: Scalar) -> (hit: Option<HitRecord>)
        ensures
            hit == self.hit_spec(r, t_min, t_max),
    {
        let root = match first_root_in_range(sphere_roots(self.center, self.radius, r), t_min, t_max) {
            None => {
                return None;
            },
            Some(root) => root,
        };
        let p = r.at(root);
        let outward_normal = p.sub(self.center).div(self.radius);
        let (u, v) = Sphere::get_sphere_uv(&outward_normal);
        let mut rec = HitRecord {
            p,
            t: root,
            normal: Vec3::zero(),
            front_face: false,
            mat_ptr: share(&self.mat_ptr),
            u,
            v,
        };
        rec.set_face_normal(r, &outward_normal);
        Some(rec)
    }

    #[verifier::when_used_as_spec(bounding_box_spec)]
    pub fn bounding_box(&self, time0: Scalar, time1: Scalar) -> (b: Option<AABB>)
        ensures
            b == self.bounding_box_spec(time0, time1),
    {
        let reach = Vec3::new(self.radius, self.radius, self.radius);
        Some(AABB::new(self.center.sub(reach), self.center.add(reach)))
    }
}


/// The two roots of a sphere come in order: the first is never the larger.
pub proof fn lemma_roots_in_order(center: Point3, radius: Scalar, r: Ray)
    ensures
        sphere_roots(center, radius, &r) matches Some((near, far)) ==> near.raw <= far.raw,
        sphere_roots(center, radius, &r) is Some <==> sphere_discriminant(center, radius, &r).raw
            >= 0,
{
    let oc = r.orig.sub(center);
    let a = r.dir.length_squared();
    let half_b = dot(&oc, &r.dir);
    let discriminant = sphere_discriminant(center, radius, &r);
    if !discriminant.lt(Scalar::zero()) {
        let sqrtd = discriminant.sqrt();
        lemma_sqrt_not_negative(discriminant);
        lemma_square_not_negative(r.dir.x);
        lemma_square_not_negative(r.dir.y);
        lemma_square_not_negative(r.dir.z);
        assert(0 <= a.raw);
        lemma_div_monotone(half_b.neg().sub(sqrtd), half_b.neg().add(sqrtd), a);
    }
}

/// A sphere is hit at the first of its two roots that lies in the interval:
/// at the smaller root where that is in the interval, at the larger one where
/// only that is, and not at all where the ray passes by or both roots lie
/// outside.
pub proof fn lemma_hit_is_first_root_in_range(s: Sphere, r: Ray, t_min: Scalar, t_max: Scalar)
    ensures
        match sphere_roots(s.center, s.radius, &r) {
            None => s.hit(&r, t_min, t_max) is None,
            Some((near, far)) => {
                &&& near.raw <= far.raw
                &&& in_range(near, t_min, t_max) ==> s.hit(&r, t_min, t_max) == Some(
                    s.record_at(&r, near),
                )
                &&& !in_range(near, t_min, t_max) && in_range(far, t_min, t_max) ==> s.hit(
                    &r,
                    t_min,
                    t_max,
                ) == Some(s.record_at(&r, far))
                &&& !in_range(near, t_min, t_max) && !in_range(far, t_min, t_max) ==> s.hit(
                    &r,
                    t_min,
                    t_max,
                ) is None
            },
        },
        s.hit(&r, t_min, t_max) matches Some(rec) ==> in_range(rec.t, t_min, t_max),
{
    lemma_roots_in_order(s.center, s.radius, r);
}

} // verus!
