//! What a ray can hit: the record of a hit, and the scene objects.

use std::rc::Rc;
use vstd::prelude::*;

use crate::_box::Box;
use crate::aabb::AABB;
use crate::aarect::{XYRect, XZRect, YZRect};
use crate::bvh::BVHNode;
use crate::constantmedium::ConstantMedium;
use crate::hittable_list::HittableList;
use crate::material::Material;
use crate::movingsphere::MovingSphere;
use crate::ray::Ray;
use crate::scalar::{Scalar, RAW_MAX, RAW_ONE};
use crate::sphere::Sphere;
use crate::util::{degrees_to_radians, random_f64};
use crate::vec3::{dot, Point3, Vec3};

verus! {

/// Where and how a ray met a surface.
pub struct HitRecord {
    /// The point that was hit.
    pub p: Point3,
    /// The surface normal there, turned against the ray.
    pub normal: Vec3,
    /// The material of the surface.
    pub mat_ptr: Rc<Material>,
    /// The ray parameter of the hit.
    pub t: Scalar,
    /// The surface coordinates of the hit.
    pub u: Scalar,
    pub v: Scalar,
    /// Whether the ray came from outside the surface.
    pub front_face: bool,
}

/// Whether a ray along `direction` meets a surface with the given outward
/// normal from outside.
pub open spec fn faces_front(direction: Vec3, outward_normal: Vec3) -> bool {
    dot(&direction, &outward_normal).lt(Scalar::zero())
}

/// The outward normal, turned against a ray along `direction`.
pub open spec fn facing_normal(direction: Vec3, outward_normal: Vec3) -> Vec3 {
    if faces_front(direction, outward_normal) {
        outward_normal
    } else {
        outward_normal.neg()
    }
}

impl HitRecord {
    /// The normal that points out of the surface, whichever side was hit: the
    /// record's normal after a hit from outside, and its opposite after a hit
    /// from inside.
    pub open spec fn outward_normal_spec(&self) -> Vec3 {
        if self.front_face {
            self.normal
        } else {
            self.normal.neg()
        }
    }

    #[verifier::when_used_as_spec(outward_normal_spec)]
    pub fn outward_normal(&self) -> (n: Vec3)
        ensures
            n == self.outward_normal_spec(),
    {
        if self.front_face {
            self.normal
        } else {
            self.normal.neg()
        }
    }

    /// The record with its normal and side set from the outward normal, for
    /// the ray `r`.
    pub open spec fn with_face_normal(self, r: &Ray, outward_normal: &Vec3) -> HitRecord {
        HitRecord {
            front_face: faces_front(r.dir, *outward_normal),
            normal: facing_normal(r.dir, *outward_normal),
            ..self
        }
    }

    /// Sets the side that was hit and turns the normal against the ray.
    pub fn set_face_normal(&mut self, r: &Ray, outward_normal: &Vec3)
        ensures
            *final(self) == old(self).with_face_normal(r, outward_normal),
    {
        self.front_face = dot(&r.direction(), outward_normal).lt(Scalar::zero());
        self.normal = if self.front_face {
            *outward_normal
        } else {
            outward_normal.neg()
        };
    }
}


/// Anything that a ray can hit.
pub enum Hittable {
    Sphere(Sphere),
    MovingSphere(MovingSphere),
    XYRect(XYRect),
    XZRect(XZRect),
    YZRect(YZRect),
    Box(Box),
    ConstantMedium(ConstantMedium),
    Translate(Translate),
    RotateY(RotateY),
    BVHNode(BVHNode),
    List(HittableList),
}

/// An object moved by an offset.
pub struct Translate {
    pub ptr: Rc<Hittable>,
    pub offset: Vec3,
}

/// An object turned about the y axis.
pub struct RotateY {
    pub ptr: Rc<Hittable>,
    pub sin_theta: Scalar,
    pub cos_theta: Scalar,
    pub bbox: Option<AABB>,
}

/// The vector turned about the y axis by the angle with the given sine and
/// cosine.
pub open spec fn turn_spec(v: Vec3, sin_theta: Scalar, cos_theta: Scalar) -> Vec3 {
    Vec3 {
        x: cos_theta.mul(v.x).add(sin_theta.mul(v.z)),
        y: v.y,
        z: sin_theta.neg().mul(v.x).add(cos_theta.mul(v.z)),
    }
}

/// The vector turned back about the y axis by the angle with the given sine
/// and cosine.
pub open spec fn turn_back_spec(v: Vec3, sin_theta: Scalar, cos_theta: Scalar) -> Vec3 {
    Vec3 {
        x: cos_theta.mul(v.x).sub(sin_theta.mul(v.z)),
        y: v.y,
        z: sin_theta.mul(v.x).add(cos_theta.mul(v.z)),
    }
}

/// The corner of a box with the given number: bit 2 picks the far x, bit 1 the
/// far y, bit 0 the far z.
pub open spec fn box_corner(b: AABB, n: int) -> Point3 {
    Vec3 {
        x: if n / 4 % 2 == 1 { b.maximum.x } else { b.minimum.x },
        y: if n / 2 % 2 == 1 { b.maximum.y } else { b.minimum.y },
        z: if n % 2 == 1 { b.maximum.z } else { b.minimum.z },
    }
}

/// The componentwise extremes of the first `n` corners of a box after they
/// have been turned: the smallest and the largest coordinates. Before any
/// corner they are plus and minus infinity.
pub open spec fn turned_extremes(b: AABB, sin_theta: Scalar, cos_theta: Scalar, n: nat) -> (
    Point3,
    Point3,
)
    decreases n,
{
    if n == 0 {
        (
            Vec3 { x: Scalar::infinity(), y: Scalar::infinity(), z: Scalar::infinity() },
            Vec3 { x: Scalar::neg_infinity(), y: Scalar::neg_infinity(), z: Scalar::neg_infinity() },
        )
    } else {
        let before = turned_extremes(b, sin_theta, cos_theta, (n - 1) as nat);
        let tester = turn_spec(box_corner(b, n - 1), sin_theta, cos_theta);
        (crate::aabb::lower_corner(before.0, tester), crate::aabb::upper_corner(before.1, tester))
    }
}

/// The box round a box that has been turned: the box round its eight turned
/// corners.
pub open spec fn turned_box(b: AABB, sin_theta: Scalar, cos_theta: Scalar) -> AABB {
    let extremes = turned_extremes(b, sin_theta, cos_theta, 8);
    AABB::new(extremes.0, extremes.1)
}

fn turn(v: Vec3, sin_theta: Scalar, cos_theta: Scalar) -> (r: Vec3)
    ensures
        r == turn_spec(v, sin_theta, cos_theta),
{
    Vec3 {
        x: cos_theta.mul(v.x).add(sin_theta.mul(v.z)),
        y: v.y,
        z: sin_theta.neg().mul(v.x).add(cos_theta.mul(v.z)),
    }
}

fn turn_back(v: Vec3, sin_theta: Scalar, cos_theta: Scalar) -> (r: Vec3)
    ensures
        r == turn_back_spec(v, sin_theta, cos_theta),
{
    Vec3 {
        x: cos_theta.mul(v.x).sub(sin_theta.mul(v.z)),
        y: v.y,
        z: sin_theta.mul(v.x).add(cos_theta.mul(v.z)),
    }
}

impl Translate {
    /// The ray as the object sees it: moved back by the offset.
    pub open spec fn object_ray(&self, r: &Ray) -> Ray {
        Ray { orig: r.orig.sub(self.offset), dir: r.dir, tm: r.tm }
    }

    /// A hit on the object, as the world sees it: the point moved by the
    /// offset, and side and normal set anew from the object's outward normal.
    pub open spec fn world_record(&self, r: &Ray, rec: HitRecord) -> HitRecord {
        HitRecord { p: rec.p.add(self.offset), ..rec }.with_face_normal(r, &rec.outward_normal())
    }

    /// The hit of the object on the ray moved back, moved forth again.
    pub open spec fn hit_spec(&self, r: &Ray, t_min: Scalar, t_max: Scalar, log_u: Scalar) -> Option<
        HitRecord,
    >
        decreases self,
    {
        match self.ptr.hit_with_spec(&self.object_ray(r), t_min, t_max, log_u) {
            None => None,
            Some(rec) => Some(self.world_record(r, rec)),
        }
    }

    /// The object's box, moved by the offset.
    pub open spec fn bounding_box_spec(&self, time0: Scalar, time1: Scalar) -> Option<AABB>
        decreases self,
    {
        match self.ptr.bounding_box_spec(time0, time1) {
            None => None,
            Some(b) => Some(
                AABB { minimum: b.minimum.add(self.offset), maximum: b.maximum.add(self.offset) },
            ),
        }
    }

    pub fn new(ptr: Rc<Hittable>, offset: Vec3) -> (r: Translate)
        ensures
            r.ptr == ptr,
            r.offset == offset,
    {
        Translate { ptr, offset }
    }

    #[verifier::when_used_as_spec(hit_spec)]
    pub fn hit(&self, r: &Ray, t_min: Scalar, t_max: Scalar, log_u: Scalar) -> (hit: Option<
        HitRecord,
    >)
        ensures
            hit == self.hit_spec(r, t_min, t_max, log_u),
        decreases self,
    {
        let moved_r = Ray::new(r.origin().sub(self.offset), r.direction(), r.time());
        match self.ptr.hit_with(&moved_r, t_min, t_max, log_u) {
            None => None,
            Some(mut rec) => {
                let outward_normal = rec.outward_normal();
                rec.p = rec.p.add(self.offset);
                rec.set_face_normal(r, &outward_normal);
                Some(rec)
            },
        }
    }

    #[verifier::when_used_as_spec(bounding_box_spec)]
    pub fn bounding_box(&self, time0: Scalar, time1: Scalar) -> (b: Option<AABB>)
        ensures
            b == self.bounding_box_spec(time0, time1),
        decreases self,
    {
        match self.ptr.bounding_box(time0, time1) {
            None => None,
            Some(b) => Some(
                AABB { minimum: b.minimum.add(self.offset), maximum: b.maximum.add(self.offset) },
            ),
        }
    }
}

impl RotateY {
    /// The ray as the object sees it: turned back about the y axis.
    pub open spec fn object_ray(&self, r: &Ray) -> Ray {
        Ray {
            orig: turn_back_spec(r.orig, self.sin_theta, self.cos_theta),
            dir: turn_back_spec(r.dir, self.sin_theta, self.cos_theta),
            tm: r.tm,
        }
    }

    /// A hit on the object, as the world sees it: the point turned forth, and
    /// side and normal set anew from the object's outward normal, turned
    /// forth.
    pub open spec fn world_record(&self, r: &Ray, rec: HitRecord) -> HitRecord {
        HitRecord { p: turn_spec(rec.p, self.sin_theta, self.cos_theta), ..rec }.with_face_normal(
            r,
            &turn_spec(rec.outward_normal(), self.sin_theta, self.cos_theta),
        )
    }

    /// The hit of the object on the ray turned back, turned forth again.
    pub open spec fn hit_spec(&self, r: &Ray, t_min: Scalar, t_max: Scalar, log_u: Scalar) -> Option<
        HitRecord,
    >
        decreases self,
    {
        match self.ptr.hit_with_spec(&self.object_ray(r), t_min, t_max, log_u) {
            None => None,
            Some(rec) => Some(self.world_record(r, rec)),
        }
    }

    /// The box that was worked out when the rotation was made.
    pub open spec fn bounding_box_spec(&self, time0: Scalar, time1: Scalar) -> Option<AABB> {
        self.bbox
    }

    /// The object turned by `angle` degrees about the y axis. Its box is the
    /// box round the turned corners of the object's box over the times from
    /// zero to one.
    pub fn new(ptr: Rc<Hittable>, angle: Scalar) -> (r: RotateY)
        ensures
            r.ptr == ptr,
            r.sin_theta == degrees_to_radians(angle).sin(),
            r.cos_theta == degrees_to_radians(angle).cos(),
            r.bbox == (match ptr.bounding_box_spec(Scalar::zero(), Scalar::one()) {
                None => None,
                Some(b) => Some(turned_box(b, r.sin_theta, r.cos_theta)),
            }),
    {
        let radians = degrees_to_radians(angle);
        let sin_theta = radians.sin();
        let cos_theta = radians.cos();
        match ptr.bounding_box(Scalar::zero(), Scalar::one()) {
            None => RotateY { ptr, sin_theta, cos_theta, bbox: None },
            Some(bbox) => {
                let mut min = Point3::new(Scalar::infinity(), Scalar::infinity(), Scalar::infinity());
                let mut max = Point3::new(
                    Scalar::neg_infinity(),
                    Scalar::neg_infinity(),
                    Scalar::neg_infinity(),
                );
                let mut n: usize = 0;
                while n < 8
                    invariant
                        n <= 8,
                        (min, max) == turned_extremes(bbox, sin_theta, cos_theta, n as nat),
                    decreases 8 - n,
                {
                    let corner = Vec3 {
                        x: if n / 4 % 2 == 1 { bbox.max().x() } else { bbox.min().x() },
                        y: if n / 2 % 2 == 1 { bbox.max().y() } else { bbox.min().y() },
                        z: if n % 2 == 1 { bbox.max().z() } else { bbox.min().z() },
                    };
                    let tester = turn(corner, sin_theta, cos_theta);
                    min = Vec3 {
                        x: min.x.min(tester.x),
                        y: min.y.min(tester.y),
                        z: min.z.min(tester.z),
                    };
                    max = Vec3 {
                        x: max.x.max(tester.x),
                        y: max.y.max(tester.y),
                        z: max.z.max(tester.z),
                    };
                    n += 1;
                }
                RotateY { ptr, sin_theta, cos_theta, bbox: Some(AABB::new(min, max)) }
            },
        }
    }

    #[verifier::when_used_as_spec(hit_spec)]
    pub fn hit(&self, r: &Ray, t_min: Scalar, t_max: Scalar, log_u: Scalar) -> (hit: Option<
        HitRecord,
    >)
        ensures
            hit == self.hit_spec(r, t_min, t_max, log_u),
        decreases self,
    {
        let rotated_r = Ray::new(
            turn_back(r.origin(), self.sin_theta, self.cos_theta),
            turn_back(r.direction(), self.sin_theta, self.cos_theta),
            r.time(),
        );
        match self.ptr.hit_with(&rotated_r, t_min, t_max, log_u) {
            None => None,
            Some(mut rec) => {
                let outward_normal = turn(rec.outward_normal(), self.sin_theta, self.cos_theta);
                rec.p = turn(rec.p, self.sin_theta, self.cos_theta);
                rec.set_face_normal(r, &outward_normal);
                Some(rec)
            },
        }
    }

    #[verifier::when_used_as_spec(bounding_box_spec)]
    pub fn bounding_box(&self, time0: Scalar, time1: Scalar) -> (b: Option<AABB>)
        ensures
            b == self.bounding_box_spec(time0, time1),
    {
        self.bbox
    }
}

impl Hittable {
    /// The nearest hit of the ray on the object with a parameter from `t_min`
    /// to `t_max`, if there is one. `log_u` is the logarithm of a random number
    /// between zero and one, by which a fog decides how far the ray gets.
    pub open spec fn hit_with_spec(&self, r: &Ray, t_min: Scalar, t_max: Scalar, log_u: Scalar) -> Option<
        HitRecord,
    >
        decreases self,
    {
        match self {
            Hittable::Sphere(o) => o.hit(r, t_min, t_max),
            Hittable::MovingSphere(o) => o.hit(r, t_min, t_max),
            Hittable::XYRect(o) => o.hit(r, t_min, t_max),
            Hittable::XZRect(o) => o.hit(r, t_min, t_max),
            Hittable::YZRect(o) => o.hit(r, t_min, t_max),
            Hittable::Box(o) => o.hit_spec(r, t_min, t_max, log_u),
            Hittable::ConstantMedium(o) => o.hit_spec(r, t_min, t_max, log_u),
            Hittable::Translate(o) => o.hit_spec(r, t_min, t_max, log_u),
            Hittable::RotateY(o) => o.hit_spec(r, t_min, t_max, log_u),
            Hittable::BVHNode(o) => o.hit_spec(r, t_min, t_max, log_u),
            Hittable::List(o) => o.hit_spec(r, t_min, t_max, log_u),
        }
    }

    /// The box that holds the object over the times from `time0` to `time1`,
    /// or `None` where it has none.
    pub open spec fn bounding_box_spec(&self, time0: Scalar, time1: Scalar) -> Option<AABB>
        decreases self,
    {
        match self {
            Hittable::Sphere(o) => o.bounding_box(time0, time1),
            Hittable::MovingSphere(o) => o.bounding_box(time0, time1),
            Hittable::XYRect(o) => o.bounding_box(time0, time1),
            Hittable::XZRect(o) => o.bounding_box(time0, time1),
            Hittable::YZRect(o) => o.bounding_box(time0, time1),
            Hittable::Box(o) => o.bounding_box(time0, time1),
            Hittable::ConstantMedium(o) => o.bounding_box_spec(time0, time1),
            Hittable::Translate(o) => o.bounding_box_spec(time0, time1),
            Hittable::RotateY(o) => o.bounding_box(time0, time1),
            Hittable::BVHNode(o) => o.bounding_box(time0, time1),
            Hittable::List(o) => o.bounding_box_spec(time0, time1),
        }
    }

    #[verifier::when_used_as_spec(hit_with_spec)]
    pub fn hit_with(&self, r: &Ray, t_min: Scalar, t_max: Scalar, log_u: Scalar) -> (hit: Option<
        HitRecord,
    >)
        ensures
            hit == self.hit_with_spec(r, t_min, t_max, log_u),
        decreases self,
    {
        match self {
            Hittable::Sphere(o) => o.hit(r, t_min, t_max),
            Hittable::MovingSphere(o) => o.hit(r, t_min, t_max),
            Hittable::XYRect(o) => o.hit(r, t_min, t_max),
            Hittable::XZRect(o) => o.hit(r, t_min, t_max),
            Hittable::YZRect(o) => o.hit(r, t_min, t_max),
            Hittable::Box(o) => o.hit(r, t_min, t_max, log_u),
            Hittable::ConstantMedium(o) => o.hit(r, t_min, t_max, log_u),
            Hittable::Translate(o) => o.hit(r, t_min, t_max, log_u),
            Hittable::RotateY(o) => o.hit(r, t_min, t_max, log_u),
            Hittable::BVHNode(o) => o.hit(r, t_min, t_max, log_u),
            Hittable::List(o) => o.hit(r, t_min, t_max, log_u),
        }
    }

    /// The nearest hit of the ray, with a fresh random number for the fogs.
    pub fn hit(&self, r: &Ray, t_min: Scalar, t_max: Scalar) -> (hit: Option<HitRecord>)
        ensures
            exists|u: Scalar|
                0 <= u.raw < RAW_ONE && hit == #[trigger] self.hit_with(r, t_min, t_max, u.ln()),
    {
        let u = random_f64();
        self.hit_with(r, t_min, t_max, u.ln())
    }

    #[verifier::when_used_as_spec(bounding_box_spec)]
    pub fn bounding_box(&self, time0: Scalar, time1: Scalar) -> (b: Option<AABB>)
        ensures
            b == self.bounding_box_spec(time0, time1),
        decreases self,
    {
        match self {
            Hittable::Sphere(o) => o.bounding_box(time0, time1),
            Hittable::MovingSphere(o) => o.bounding_box(time0, time1),
            Hittable::XYRect(o) => o.bounding_box(time0, time1),
            Hittable::XZRect(o) => o.bounding_box(time0, time1),
            Hittable::YZRect(o) => o.bounding_box(time0, time1),
            Hittable::Box(o) => o.bounding_box(time0, time1),
            Hittable::ConstantMedium(o) => o.bounding_box(time0, time1),
            Hittable::Translate(o) => o.bounding_box(time0, time1),
            Hittable::RotateY(o) => o.bounding_box(time0, time1),
            Hittable::BVHNode(o) => o.bounding_box(time0, time1),
            Hittable::List(o) => o.bounding_box(time0, time1),
        }
    }
}

/// A moved object is hit at the parameter at which the object itself is hit
/// by the ray as it sees it, and only then.
pub proof fn lemma_translate_keeps_parameter(
    t: Translate,
    r: Ray,
    t_min: Scalar,
    t_max: Scalar,
    log_u: Scalar,
)
    ensures
        t.hit(&r, t_min, t_max, log_u) is Some <==> t.ptr.hit_with(
            &t.object_ray(&r),
            t_min,
            t_max,
            log_u,
        ) is Some,
        t.hit(&r, t_min, t_max, log_u) matches Some(rec) ==> rec.t == t.ptr.hit_with(
            &t.object_ray(&r),
            t_min,
            t_max,
            log_u,
        ).unwrap().t,
{
}

/// A turned object is hit at the parameter at which the object itself is hit
/// by the ray as it sees it, and only then.
pub proof fn lemma_rotate_keeps_parameter(
    t: RotateY,
    r: Ray,
    t_min: Scalar,
    t_max: Scalar,
    log_u: Scalar,
)
    ensures
        t.hit(&r, t_min, t_max, log_u) is Some <==> t.ptr.hit_with(
            &t.object_ray(&r),
            t_min,
            t_max,
            log_u,
        ) is Some,
        t.hit(&r, t_min, t_max, log_u) matches Some(rec) ==> rec.t == t.ptr.hit_with(
            &t.object_ray(&r),
            t_min,
            t_max,
            log_u,
        ).unwrap().t,
{
}

/// Whether the record holds side and normal as a ray along `direction` finds
/// them at a surface whose normal points out along `outward`.
pub open spec fn records_side(rec: HitRecord, direction: Vec3, outward: Vec3) -> bool {
    rec.front_face == faces_front(direction, outward) && rec.normal == facing_normal(
        direction,
        outward,
    )
}

/// Whether no component of the vector lies below negative infinity, so that
/// the vector is the opposite of its opposite.
pub open spec fn within_infinities(v: Vec3) -> bool {
    -RAW_MAX <= v.x.raw && -RAW_MAX <= v.y.raw && -RAW_MAX <= v.z.raw
}

/// Whether every component of the vector is at most `2^28` in size, so that
/// sums of three such vectors are exact.
pub open spec fn far_from_infinity(v: Vec3) -> bool {
    &&& -0x1000_0000_0000_0000 <= v.x.raw <= 0x1000_0000_0000_0000
    &&& -0x1000_0000_0000_0000 <= v.y.raw <= 0x1000_0000_0000_0000
    &&& -0x1000_0000_0000_0000 <= v.z.raw <= 0x1000_0000_0000_0000
}

/// The outward normal is found again in a record that was made from it.
pub proof fn lemma_outward_normal_is_kept(rec: HitRecord, direction: Vec3, outward: Vec3)
    requires
        records_side(rec, direction, outward),
        within_infinities(outward),
    ensures
        rec.outward_normal() == outward,
{
}

/// A moved object is hit on the side on which the object itself is hit: side
/// and normal of the record are the object's own.
pub proof fn lemma_translate_keeps_side(t: Translate, r: Ray, rec: HitRecord, outward: Vec3)
    requires
        records_side(rec, t.object_ray(&r).dir, outward),
        within_infinities(outward),
    ensures
        t.world_record(&r, rec).front_face == rec.front_face,
        t.world_record(&r, rec).normal == rec.normal,
        records_side(t.world_record(&r, rec), r.dir, outward),
{
    lemma_outward_normal_is_kept(rec, r.dir, outward);
}

/// A turned object is hit on the side that the world's ray finds at the
/// object's outward normal, turned forth.
pub proof fn lemma_rotate_sets_side(t: RotateY, r: Ray, rec: HitRecord, outward: Vec3)
    requires
        records_side(rec, t.object_ray(&r).dir, outward),
        within_infinities(outward),
    ensures
        records_side(
            t.world_record(&r, rec),
            r.dir,
            turn_spec(outward, t.sin_theta, t.cos_theta),
        ),
{
    lemma_outward_normal_is_kept(rec, t.object_ray(&r).dir, outward);
}

/// The point of a hit on a moved object lies on the world's ray at the
/// parameter of the hit, where the point of the object's own hit lies on the
/// ray as the object sees it, and origin, offset and the way along the ray are
/// far enough from infinity for the sums to be exact.
pub proof fn lemma_translate_point_on_ray(t: Translate, r: Ray, rec: HitRecord)
    requires
        rec.p == t.object_ray(&r).at(rec.t),
        far_from_infinity(r.orig),
        far_from_infinity(t.offset),
        far_from_infinity(r.dir.scale(rec.t)),
    ensures
        t.world_record(&r, rec).p == r.at(rec.t),
        t.world_record(&r, rec).t == rec.t,
        t.world_record(&r, rec).u == rec.u,
        t.world_record(&r, rec).v == rec.v,
        t.world_record(&r, rec).mat_ptr == rec.mat_ptr,
{
}

} // verus!
