//! The camera: from a point of the picture to a ray through the scene.

use vstd::prelude::*;

use crate::ray::Ray;
use crate::scalar::Scalar;
use crate::util::{degrees_to_radians, random_f64_range};
use crate::vec3::{cross, inside_unit_sphere, random_in_unit_disk, unit_vector, Point3, Vec3};

verus! {

/// A camera with a thin lens and a shutter.
#[derive(Clone, Copy, Debug, PartialEq, Eq, Structural)]
pub struct Camera {
    pub origin: Point3,
    pub lower_left_corner: Point3,
    pub horizontal: Vec3,
    pub vertical: Vec3,
    pub u: Vec3,
    pub v: Vec3,
    pub w: Vec3,
    pub lens_radius: Scalar,
    pub time0: Scalar,
    pub time1: Scalar,
}

impl Camera {
    /// The camera at `lookfrom` that looks at `lookat`, with `vup` upward in
    /// the picture. `vfov` is the vertical field of view in degrees, and
    /// `aperture` the diameter of the lens. The plane in focus lies
    /// `focus_dis` before the camera; the picture spans it from
    /// `lower_left_corner` by `horizontal` and `vertical`. The shutter is open
    /// from `time0` to `time1`.
    pub open spec fn new_spec(
        lookfrom: Point3,
        lookat: Point3,
        vup: Vec3,
        vfov: Scalar,
        aspect_ratio: Scalar,
        aperture: Scalar,
        focus_dis: Scalar,
        time0: Scalar,
        time1: Scalar,
    ) -> Camera {
        let two = Scalar::from_int(2);
        let theta = degrees_to_radians(vfov);
        let h = theta.div(two).tan();
        let viewport_height = two.mul(h);
        let viewport_width = aspect_ratio.mul(viewport_height);
        let w = unit_vector(&lookfrom.sub(lookat));
        let u = unit_vector(&cross(&vup, &w));
        let v = cross(&w, &u);
        let horizontal = u.scale(focus_dis.mul(viewport_width));
        let vertical = v.scale(focus_dis.mul(viewport_height));
        Camera {
            origin: lookfrom,
            horizontal,
            vertical,
            u,
            v,
            w,
            lower_left_corner: lookfrom.sub(horizontal.div(two)).sub(vertical.div(two)).sub(
                w.scale(focus_dis),
            ),
            lens_radius: aperture.div(two),
            time0,
            time1,
        }
    }

    /// The ray through the point `(s, t)` of the picture, for a given point
    /// of the unit disk, which places the ray's origin on the lens, and a
    /// given time.
    pub open spec fn get_ray_with_spec(&self, s: Scalar, t: Scalar, disk: Vec3, time: Scalar) -> Ray {
        let rd = disk.scale(self.lens_radius);
        let offset = self.u.scale(rd.x).add(self.v.scale(rd.y));
        Ray {
            orig: self.origin.add(offset),
            dir: self.lower_left_corner.add(self.horizontal.scale(s)).add(self.vertical.scale(t)).sub(
                self.origin,
            ).sub(offset),
            tm: time,
        }
    }

    /// Whether the shutter is open at the time: from `time0` on and before
    /// `time1`, or at `time0` where it opens and shuts at once.
    pub open spec fn shutter_open_at(&self, time: Scalar) -> bool {
        if self.time0.raw < self.time1.raw {
            self.time0.raw <= time.raw < self.time1.raw
        } else {
            time == self.time0
        }
    }

    #[verifier::when_used_as_spec(new_spec)]
    pub fn new(
        lookfrom: Point3,
        lookat: Point3,
        vup: Vec3,
        vfov: Scalar,
        aspect_ratio: Scalar,
        aperture: Scalar,
        focus_dis: Scalar,
        time0: Scalar,
        time1: Scalar,
    ) -> (c: Camera)
        ensures
            c == Self::new_spec(
                lookfrom,
                lookat,
                vup,
                vfov,
                aspect_ratio,
                aperture,
                focus_dis,
                time0,
                time1,
            ),
    {
        let two = Scalar::from_int(2);
        let theta = degrees_to_radians(vfov);
        let h = theta.div(two).tan();
        let viewport_height = two.mul(h);
        let viewport_width = aspect_ratio.mul(viewport_height);
        let w = unit_vector(&lookfrom.sub(lookat));
        let u = unit_vector(&cross(&vup, &w));
        let v = cross(&w, &u);
        let origin = lookfrom;
        let horizontal = u.scale(focus_dis.mul(viewport_width));
        let vertical = v.scale(focus_dis.mul(viewport_height));
        let lower_left_corner = origin.sub(horizontal.div(two)).sub(vertical.div(two)).sub(
            w.scale(focus_dis),
        );
        let lens_radius = aperture.div(two);
        Camera { origin, horizontal, vertical, u, v, w, lower_left_corner, lens_radius, time0, time1 }
    }

    #[verifier::when_used_as_spec(get_ray_with_spec)]
    pub fn get_ray_with(&self, s: Scalar, t: Scalar, disk: Vec3, time: Scalar) -> (r: Ray)
        ensures
            r == self.get_ray_with_spec(s, t, disk, time),
    {
        let rd = disk.scale(self.lens_radius);
        let offset = self.u.scale(rd.x()).add(self.v.scale(rd.y()));
        Ray::new(
            self.origin.add(offset),
            self.lower_left_corner.add(self.horizontal.scale(s)).add(self.vertical.scale(t)).sub(
                self.origin,
            ).sub(offset),
            time,
        )
    }

    /// The ray through the point `(s, t)` of the picture, from a random point
    /// of the lens at a random time while the shutter is open.
    pub fn get_ray(&self, s: Scalar, t: Scalar) -> (r: Ray)
        ensures
            exists|disk: Vec3, time: Scalar|
                inside_unit_sphere(&disk) && disk.z == Scalar::zero() && self.shutter_open_at(time)
                    && r == #[trigger] self.get_ray_with(s, t, disk, time),
    {
        let disk = random_in_unit_disk();
        let time = if self.time0.lt(self.time1) {
            random_f64_range(self.time0, self.time1)
        } else {
            self.time0
        };
        self.get_ray_with(s, t, disk, time)
    }
}

} // verus!
