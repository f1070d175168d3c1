//! Rays: a half-line with the moment at which it is cast.

use vstd::prelude::*;

use crate::scalar::Scalar;
use crate::vec3::{Point3, Vec3};

verus! {

/// A ray from `orig` along `dir`, cast at time `tm`.
#[derive(Clone, Copy, Debug, PartialEq, Eq, Structural)]
pub struct Ray {
    pub orig: Point3,
    pub dir: Vec3,
    pub tm: Scalar,
}

impl Ray {
    pub open spec fn new_spec(orig: Vec3, dir: Vec3, tm: Scalar) -> Ray {
        Ray { orig, dir, tm }
    }

    /// The point reached at parameter `t`: the origin plus `t` times the
    /// direction.
    pub open spec fn at_spec(&self, t: Scalar) -> Point3 {
        self.orig.add(self.dir.scale(t))
    }

    #[verifier::when_used_as_spec(new_spec)]
    pub fn new(orig: Vec3, dir: Vec3, tm: Scalar) -> (r: Ray)
        ensures
            r == Self::new_spec(orig, dir, tm),
    {
        Ray { orig, dir, tm }
    }

    pub fn origin(&self) -> (r: Point3)
        ensures
            r == self.orig,
    {
        self.orig
    }

    pub fn direction(&self) -> (r: Vec3)
        ensures
            r == self.dir,
    {
        self.dir
    }

    pub fn time(&self) -> (r: Scalar)
        ensures
            r == self.tm,
    {
        self.tm
    }

    #[verifier::when_used_as_spec(at_spec)]
    pub fn at(&self, t: Scalar) -> (r: Point3)
        ensures
            r == self.at_spec(t),
    {
        self.orig.add(self.dir.scale(t))
    }
}

impl Default for Ray {
    /// The ray from the origin along no direction, at time zero.
    fn default() -> (r: Ray)
        ensures
            r == Ray::new(Vec3::zero(), Vec3::zero(), Scalar::zero()),
    {
        Ray { orig: Vec3::zero(), dir: Vec3::zero(), tm: Scalar::zero() }
    }
}

} // verus!
