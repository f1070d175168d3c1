//! Fog of constant density inside a boundary.

use std::rc::Rc;
use vstd::prelude::*;

use crate::aabb::AABB;
use crate::hittable::{HitRecord, Hittable};
use crate::material::{Isotrophic, Material};
use crate::ray::Ray;
use crate::scalar::Scalar;
use crate::texture::{SolidColor, Texture};
use crate::util::share;
use crate::vec3::{Color, Vec3};

verus! {

/// A volume in which a ray is scattered after a random distance.
pub struct ConstantMedium {
    pub boundary: Rc<Hittable>,
    pub phase_function: Rc<Material>,
    pub neg_inv_density: Scalar,
}

/// The step past the point where the ray enters, from which the point where
/// it leaves is looked for: `10^-4`.
pub open spec fn exit_step() -> Scalar {
    Scalar::from_ratio(1, 10_000)
}

/// Minus the reciprocal of a density.
pub open spec fn neg_inv_density_spec(d: Scalar) -> Scalar {
    Scalar::one().neg().div(d)
}

impl ConstantMedium {
    /// The stretch of the ray inside the boundary: the parameters at which it
    /// enters and leaves, cut down to the interval from `t_min` to `t_max`, and
    /// the entry not before the ray's origin. `None` where the ray does not
    /// both enter and leave, or nothing is left of the stretch.
    pub open spec fn span_inside(&self, r: &Ray, t_min: Scalar, t_max: Scalar, log_u: Scalar) -> Option<
        (Scalar, Scalar),
    >
        decreases self, 1nat,
    {
        match self.boundary.hit_with_spec(r, Scalar::neg_infinity(), Scalar::infinity(), log_u) {
            None => None,
            Some(rec1) => match self.boundary.hit_with_spec(
                r,
                rec1.t.add(exit_step()),
                Scalar::infinity(),
                log_u,
            ) {
                None => None,
                Some(rec2) => {
                    let enter = rec1.t.max(t_min);
                    let leave = rec2.t.min(t_max);
                    if enter.ge(leave) {
                        None
                    } else {
                        Some((enter.max(Scalar::zero()), leave))
                    }
                },
            },
        }
    }

    /// The hit in the fog: the ray is scattered after the distance
    /// `neg_inv_density * log_u` inside the boundary, unless it has left the
    /// boundary by then. The record holds the point and the fog's material;
    /// normal and side are arbitrary.
    pub open spec fn hit_spec(&self, r: &Ray, t_min: Scalar, t_max: Scalar, log_u: Scalar) -> Option<
        HitRecord,
    >
        decreases self, 2nat,
    {
        match self.span_inside(r, t_min, t_max, log_u) {
            None => None,
            Some((enter, leave)) => {
                let ray_length = r.dir.length();
                let distance_inside_boundary = leave.sub(enter).mul(ray_length);
                let hit_distance = self.neg_inv_density.mul(log_u);
                if hit_distance.gt(distance_inside_boundary) {
                    None
                } else {
                    let t = enter.add(hit_distance.div(ray_length));
                    Some(
                        HitRecord {
                            p: r.at(t),
                            normal: Vec3 { x: Scalar::one(), y: Scalar::zero(), z: Scalar::zero() },
                            mat_ptr: self.phase_function,
                            t,
                            u: Scalar::zero(),
                            v: Scalar::zero(),
                            front_face: true,
                        },
                    )
                }
            },
        }
    }

    /// The boundary's box.
    pub open spec fn bounding_box_spec(&self, time0: Scalar, time1: Scalar) -> Option<AABB>
        decreases self,
    {
        self.boundary.bounding_box_spec(time0, time1)
    }

    /// Fog of density `d` inside `boundary`, coloured by a texture.
    pub fn from_texture(boundary: Rc<Hittable>, d: Scalar, a: Rc<Texture>) -> (m: ConstantMedium)
        ensures
            m.boundary == boundary,
            *m.phase_function == Material::Isotrophic(Isotrophic { albedo: a }),
            m.neg_inv_density == neg_inv_density_spec(d),
    {
        ConstantMedium {
            boundary,
            phase_function: Rc::new(Material::Isotrophic(Isotrophic::new(a))),
            neg_inv_density: Scalar::one().neg().div(d),
        }
    }

    /// Fog of density `d` inside `boundary`, of one colour.
    pub fn from_color(boundary: Rc<Hittable>, d: Scalar, a: Color) -> (m: ConstantMedium)
        ensures
            m.boundary == boundary,
            *m.phase_function matches Material::Isotrophic(iso) && *iso.albedo
                == Texture::SolidColor(SolidColor::from(a)),
            m.neg_inv_density == neg_inv_density_spec(d),
    {
        ConstantMedium {
            boundary,
            phase_function: Rc::new(Material::Isotrophic(Isotrophic::from(a))),
            neg_inv_density: Scalar::one().neg().div(d),
        }
    }

    #[verifier::when_used_as_spec(hit_spec)]
    pub fn hit(&self, r: &Ray, t_min: Scalar, t_max: Scalar, log_u: Scalar) -> (hit: Option<
        HitRecord,
    >)
        ensures
            hit == self.hit_spec(r, t_min, t_max, log_u),
        decreases self,
    {
        let rec1 = match self.boundary.hit_with(r, Scalar::neg_infinity(), Scalar::infinity(), log_u) {
            None => {
                return None;
            },
            Some(rec) => rec,
        };
        let rec2 = match self.boundary.hit_with(
            r,
            rec1.t.add(Scalar::from_ratio(1, 10_000)),
            Scalar::infinity(),
            log_u,
        ) {
            None => {
                return None;
            },
            Some(rec) => rec,
        };
        let mut enter = rec1.t;
        let mut leave = rec2.t;
        if enter.lt(t_min) {
            enter = t_min;
        }
        if leave.gt(t_max) {
            leave = t_max;
        }
        if enter.ge(leave) {
            return None;
        }
        if enter.lt(Scalar::zero()) {
            enter = Scalar::zero();
        }
        let ray_length = r.direction().length();
        let distance_inside_boundary = leave.sub(enter).mul(ray_length);
        let hit_distance = self.neg_inv_density.mul(log_u);
        if hit_distance.gt(distance_inside_boundary) {
            return None;
        }
        let t = enter.add(hit_distance.div(ray_length));
        Some(
            HitRecord {
                p: r.at(t),
                normal: Vec3::new(Scalar::one(), Scalar::zero(), Scalar::zero()),
                mat_ptr: share(&self.phase_function),
                t,
                u: Scalar::zero(),
                v: Scalar::zero(),
                front_face: true,
            },
        )
    }

    #[verifier::when_used_as_spec(bounding_box_spec)]
    pub fn bounding_box(&self, time0: Scalar, time1: Scalar) -> (b: Option<AABB>)
        ensures
            b == self.bounding_box_spec(time0, time1),
        decreases self,
    {
        self.boundary.bounding_box(time0, time1)
    }
}

} // verus!
