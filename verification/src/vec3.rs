//! Three-component vectors, used as directions, points and colours.

use vstd::prelude::*;

use crate::scalar::{Scalar, RAW_ONE};
use crate::util::{random_f64, random_f64_range};

verus! {

/// A vector of three fixed-point numbers.
#[derive(Clone, Copy, Debug, PartialEq, Eq, Structural)]
pub struct Vec3 {
    pub x: Scalar,
    pub y: Scalar,
    pub z: Scalar,
}

/// A position in space.
pub type Point3 = Vec3;

/// A linear colour: red, green and blue.
pub type Color = Vec3;

/// How often the rejection samplers draw before they settle for the centre.
pub const SAMPLE_ATTEMPTS: usize = 64;

impl Vec3 {
    pub open spec fn new_spec(x: Scalar, y: Scalar, z: Scalar) -> Vec3 {
        Vec3 { x, y, z }
    }

    /// The vector whose three components are zero.
    pub open spec fn zero_spec() -> Vec3 {
        Vec3 { x: Scalar::zero(), y: Scalar::zero(), z: Scalar::zero() }
    }

    /// The component on the given axis: 0 is x, 1 is y, anything else is z.
    pub open spec fn index_spec(&self, axis: usize) -> Scalar {
        if axis == 0 {
            self.x
        } else if axis == 1 {
            self.y
        } else {
            self.z
        }
    }

    pub open spec fn length_squared_spec(&self) -> Scalar {
        self.x.mul(self.x).add(self.y.mul(self.y)).add(self.z.mul(self.z))
    }

    pub open spec fn length_spec(&self) -> Scalar {
        self.length_squared_spec().sqrt()
    }

    /// Whether every component is closer to zero than `10^-8`.
    pub open spec fn near_zero_spec(&self) -> bool {
        let s = Scalar::from_ratio(1, 100_000_000);
        self.x.abs().lt(s) && self.y.abs().lt(s) && self.z.abs().lt(s)
    }

    pub open spec fn neg_spec(self) -> Vec3 {
        Vec3 { x: self.x.neg(), y: self.y.neg(), z: self.z.neg() }
    }

    pub open spec fn add_spec(self, rhs: Vec3) -> Vec3 {
        Vec3 { x: self.x.add(rhs.x), y: self.y.add(rhs.y), z: self.z.add(rhs.z) }
    }

    pub open spec fn sub_spec(self, rhs: Vec3) -> Vec3 {
        Vec3 { x: self.x.sub(rhs.x), y: self.y.sub(rhs.y), z: self.z.sub(rhs.z) }
    }

    /// The componentwise product.
    pub open spec fn mul_spec(self, rhs: Vec3) -> Vec3 {
        Vec3 { x: self.x.mul(rhs.x), y: self.y.mul(rhs.y), z: self.z.mul(rhs.z) }
    }

    /// The vector stretched by the factor `t`.
    pub open spec fn scale_spec(self, t: Scalar) -> Vec3 {
        Vec3 { x: t.mul(self.x), y: t.mul(self.y), z: t.mul(self.z) }
    }

    /// The vector stretched by the reciprocal of `t`.
    pub open spec fn div_spec(self, t: Scalar) -> Vec3 {
        self.scale_spec(Scalar::one().div(t))
    }

    #[verifier::when_used_as_spec(new_spec)]
    pub fn new(x: Scalar, y: Scalar, z: Scalar) -> (r: Vec3)
        ensures
            r == Self::new_spec(x, y, z),
    {
        Vec3 { x, y, z }
    }

    #[verifier::when_used_as_spec(zero_spec)]
    pub fn zero() -> (r: Vec3)
        ensures
            r == Self::zero_spec(),
    {
        Vec3 { x: Scalar::zero(), y: Scalar::zero(), z: Scalar::zero() }
    }

    pub fn x(&self) -> (r: Scalar)
        ensures
            r == self.x,
    {
        self.x
    }

    pub fn y(&self) -> (r: Scalar)
        ensures
            r == self.y,
    {
        self.y
    }

    pub fn z(&self) -> (r: Scalar)
        ensures
            r == self.z,
    {
        self.z
    }

    #[verifier::when_used_as_spec(index_spec)]
    pub fn index(&self, axis: usize) -> (r: Scalar)
        ensures
            r == self.index_spec(axis),
    {
        if axis == 0 {
            self.x
        } else if axis == 1 {
            self.y
        } else {
            self.z
        }
    }

    #[verifier::when_used_as_spec(length_spec)]
    pub fn length(&self) -> (r: Scalar)
        ensures
            r == self.length_spec(),
    {
        self.length_squared().sqrt()
    }

    #[verifier::when_used_as_spec(length_squared_spec)]
    pub fn length_squared(&self) -> (r: Scalar)
        ensures
            r == self.length_squared_spec(),
    {
        self.x.mul(self.x).add(self.y.mul(self.y)).add(self.z.mul(self.z))
    }

    /// A vector whose components are drawn from `[0, 1)`.
    pub fn random() -> (r: Vec3)
        ensures
            0 <= r.x.raw < RAW_ONE,
            0 <= r.y.raw < RAW_ONE,
            0 <= r.z.raw < RAW_ONE,
    {
        Vec3::new(random_f64(), random_f64(), random_f64())
    }

    /// A vector whose components are drawn from `[min, max)`.
    pub fn random_range(min: Scalar, max: Scalar) -> (r: Vec3)
        requires
            min.raw < max.raw,
        ensures
            min.raw <= r.x.raw < max.raw,
            min.raw <= r.y.raw < max.raw,
            min.raw <= r.z.raw < max.raw,
    {
        Vec3::new(
            random_f64_range(min, max),
            random_f64_range(min, max),
            random_f64_range(min, max),
        )
    }

    #[verifier::when_used_as_spec(near_zero_spec)]
    pub fn near_zero(&self) -> (r: bool)
        ensures
            r == self.near_zero_spec(),
    {
        let s = Scalar::from_ratio(1, 100_000_000);
        self.x.abs().lt(s) && self.y.abs().lt(s) && self.z.abs().lt(s)
    }

    #[verifier::when_used_as_spec(neg_spec)]
    pub fn neg(self) -> (r: Vec3)
        ensures
            r == self.neg_spec(),
    {
        Vec3 { x: self.x.neg(), y: self.y.neg(), z: self.z.neg() }
    }

    #[verifier::when_used_as_spec(add_spec)]
    pub fn add(self, rhs: Vec3) -> (r: Vec3)
        ensures
            r == self.add_spec(rhs),
    {
        Vec3 { x: self.x.add(rhs.x), y: self.y.add(rhs.y), z: self.z.add(rhs.z) }
    }

    #[verifier::when_used_as_spec(sub_spec)]
    pub fn sub(self, rhs: Vec3) -> (r: Vec3)
        ensures
            r == self.sub_spec(rhs),
    {
        Vec3 { x: self.x.sub(rhs.x), y: self.y.sub(rhs.y), z: self.z.sub(rhs.z) }
    }

    #[verifier::when_used_as_spec(mul_spec)]
    pub fn mul(self, rhs: Vec3) -> (r: Vec3)
        ensures
            r == self.mul_spec(rhs),
    {
        Vec3 { x: self.x.mul(rhs.x), y: self.y.mul(rhs.y), z: self.z.mul(rhs.z) }
    }

    #[verifier::when_used_as_spec(scale_spec)]
    pub fn scale(self, t: Scalar) -> (r: Vec3)
        ensures
            r == self.scale_spec(t),
    {
        Vec3 { x: t.mul(self.x), y: t.mul(self.y), z: t.mul(self.z) }
    }

    #[verifier::when_used_as_spec(div_spec)]
    pub fn div(self, t: Scalar) -> (r: Vec3)
        ensures
            r == self.div_spec(t),
    {
        self.scale(Scalar::one().div(t))
    }

    pub fn add_assign(&mut self, rhs: Vec3)
        ensures
            *final(self) == old(self).add(rhs),
    {
        *self = self.add(rhs);
    }

    pub fn mul_assign(&mut self, t: Scalar)
        ensures
            *final(self) == old(self).scale(t),
    {
        *self = self.scale(t);
    }

    pub fn div_assign(&mut self, t: Scalar)
        ensures
            *final(self) == old(self).div(t),
    {
        *self = self.div(t);
    }
}

impl Default for Vec3 {
    /// The vector whose three components are zero.
    fn default() -> (r: Vec3)
        ensures
            r == Vec3::zero(),
    {
        Vec3::zero()
    }
}

pub open spec fn dot_spec(u: &Vec3, v: &Vec3) -> Scalar {
    u.x.mul(v.x).add(u.y.mul(v.y)).add(u.z.mul(v.z))
}

pub open spec fn cross_spec(u: &Vec3, v: &Vec3) -> Vec3 {
    Vec3 {
        x: u.y.mul(v.z).sub(u.z.mul(v.y)),
        y: u.z.mul(v.x).sub(u.x.mul(v.z)),
        z: u.x.mul(v.y).sub(u.y.mul(v.x)),
    }
}

/// The vector divided by its own length.
pub open spec fn unit_vector_spec(v: &Vec3) -> Vec3 {
    v.div(v.length())
}

/// The mirror image of `v` about the plane whose normal is `n`.
pub open spec fn reflect_spec(v: &Vec3, n: &Vec3) -> Vec3 {
    v.sub(n.scale(Scalar::from_int(2).mul(dot(v, n))))
}

/// The direction of `uv` after it crosses, by Snell's law, a surface with
/// normal `n` and the given ratio of refractive indices.
pub open spec fn refract_spec(uv: &Vec3, n: &Vec3, etai_over_etat: Scalar) -> Vec3 {
    let cos_theta = dot(&uv.neg(), n).min(Scalar::one());
    let r_out_perp = uv.add(n.scale(cos_theta)).scale(etai_over_etat);
    let r_out_parallel = n.scale(Scalar::one().sub(r_out_perp.length_squared()).abs().sqrt().neg());
    r_out_perp.add(r_out_parallel)
}

/// Whether the point lies strictly inside the unit sphere.
pub open spec fn inside_unit_sphere_spec(p: &Vec3) -> bool {
    p.length_squared().lt(Scalar::one())
}

/// `v` itself when it points to the side of `normal`, else its opposite.
pub open spec fn toward_spec(v: &Vec3, normal: &Vec3) -> Vec3 {
    if dot(v, normal).gt(Scalar::zero()) {
        *v
    } else {
        v.neg()
    }
}

#[verifier::when_used_as_spec(dot_spec)]
pub fn dot(u: &Vec3, v: &Vec3) -> (r: Scalar)
    ensures
        r == dot_spec(u, v),
{
    u.x.mul(v.x).add(u.y.mul(v.y)).add(u.z.mul(v.z))
}

#[verifier::when_used_as_spec(cross_spec)]
pub fn cross(u: &Vec3, v: &Vec3) -> (r: Vec3)
    ensures
        r == cross_spec(u, v),
{
    Vec3 {
        x: u.y.mul(v.z).sub(u.z.mul(v.y)),
        y: u.z.mul(v.x).sub(u.x.mul(v.z)),
        z: u.x.mul(v.y).sub(u.y.mul(v.x)),
    }
}

#[verifier::when_used_as_spec(unit_vector_spec)]
pub fn unit_vector(v: &Vec3) -> (r: Vec3)
    ensures
        r == unit_vector_spec(v),
{
    v.div(v.length())
}

#[verifier::when_used_as_spec(reflect_spec)]
pub fn reflect(v: &Vec3, n: &Vec3) -> (r: Vec3)
    ensures
        r == reflect_spec(v, n),
{
    v.sub(n.scale(Scalar::from_int(2).mul(dot(v, n))))
}

#[verifier::when_used_as_spec(refract_spec)]
pub fn refract(uv: &Vec3, n: &Vec3, etai_over_etat: Scalar) -> (r: Vec3)
    ensures
        r == refract_spec(uv, n, etai_over_etat),
{
    let cos_theta = dot(&uv.neg(), n).min(Scalar::one());
    let r_out_perp = uv.add(n.scale(cos_theta)).scale(etai_over_etat);
    let r_out_parallel = n.scale(Scalar::one().sub(r_out_perp.length_squared()).abs().sqrt().neg());
    r_out_perp.add(r_out_parallel)
}

#[verifier::when_used_as_spec(inside_unit_sphere_spec)]
pub fn inside_unit_sphere(p: &Vec3) -> (r: bool)
    ensures
        r == inside_unit_sphere_spec(p),
{
    p.length_squared().lt(Scalar::one())
}

#[verifier::when_used_as_spec(toward_spec)]
pub fn toward(v: &Vec3, normal: &Vec3) -> (r: Vec3)
    ensures
        r == toward_spec(v, normal),
{
    if dot(v, normal).gt(Scalar::zero()) {
        *v
    } else {
        v.neg()
    }
}

/// A random point strictly inside the unit sphere, found by drawing points of
/// the surrounding cube until one falls inside. After `SAMPLE_ATTEMPTS`
/// failures in a row the centre is returned.
pub fn random_in_unit_sphere() -> (r: Vec3)
    ensures
        inside_unit_sphere(&r),
        sphere_draw(r),
{
    let ghost mut drawn: Seq<Vec3> = Seq::empty();
    let mut attempt: usize = 0;
    while attempt < SAMPLE_ATTEMPTS
        invariant
            attempt <= SAMPLE_ATTEMPTS,
            drawn.len() == attempt,
            all_in_cube(drawn),
            forall|i: int| 0 <= i < drawn.len() ==> !inside_unit_sphere(&#[trigger] drawn[i]),
        decreases SAMPLE_ATTEMPTS - attempt,
    {
        let p = Vec3::random_range(Scalar::from_int(-1), Scalar::one());
        proof {
            drawn = drawn.push(p);
        }
        if inside_unit_sphere(&p) {
            proof {
                lemma_first_inside_of_run(drawn);
                assert(rejection_run(drawn) && all_in_cube(drawn) && p == first_inside_spec(drawn));
            }
            return p;
        }
        attempt += 1;
    }
    proof {
        lemma_first_inside_of_run(drawn);
        assert(rejection_run(drawn) && all_in_cube(drawn) && Vec3::zero() == first_inside_spec(drawn));
    }
    Vec3::zero()
}

/// A random direction: a point of the unit sphere's inside, normalized.
pub fn random_unit_vector() -> (r: Vec3)
    ensures
        exists|p: Vec3| inside_unit_sphere(&p) && r == unit_vector(&p),
{
    let p = random_in_unit_sphere();
    unit_vector(&p)
}

/// A random point inside the unit sphere on the side of `normal`.
pub fn random_in_hemisphere(normal: &Vec3) -> (r: Vec3)
    ensures
        exists|p: Vec3| inside_unit_sphere(&p) && r == toward(&p, normal),
{
    let in_unit_sphere = random_in_unit_sphere();
    toward(&in_unit_sphere, normal)
}

/// A random point strictly inside the unit disk of the plane `z = 0`, found
/// like `random_in_unit_sphere`, from points of the surrounding square.
pub fn random_in_unit_disk() -> (r: Vec3)
    ensures
        inside_unit_sphere(&r),
        r.z == Scalar::zero(),
        disk_draw(r),
{
    let ghost mut drawn: Seq<Vec3> = Seq::empty();
    let mut attempt: usize = 0;
    while attempt < SAMPLE_ATTEMPTS
        invariant
            attempt <= SAMPLE_ATTEMPTS,
            drawn.len() == attempt,
            all_in_square(drawn),
            forall|i: int| 0 <= i < drawn.len() ==> !inside_unit_sphere(&#[trigger] drawn[i]),
        decreases SAMPLE_ATTEMPTS - attempt,
    {
        let p = Vec3::new(
            random_f64_range(Scalar::from_int(-1), Scalar::one()),
            random_f64_range(Scalar::from_int(-1), Scalar::one()),
            Scalar::zero(),
        );
        proof {
            drawn = drawn.push(p);
        }
        if inside_unit_sphere(&p) {
            proof {
                lemma_first_inside_of_run(drawn);
                assert(rejection_run(drawn) && all_in_square(drawn) && p == first_inside_spec(drawn));
            }
            return p;
        }
        attempt += 1;
    }
    proof {
        lemma_first_inside_of_run(drawn);
        assert(rejection_run(drawn) && all_in_square(drawn) && Vec3::zero() == first_inside_spec(
            drawn,
        ));
    }
    Vec3::zero()
}

/// Whether every component of the point lies in `[-1, 1)`.
pub open spec fn in_cube(p: Vec3) -> bool {
    &&& -RAW_ONE <= p.x.raw < RAW_ONE
    &&& -RAW_ONE <= p.y.raw < RAW_ONE
    &&& -RAW_ONE <= p.z.raw < RAW_ONE
}

/// Whether every point of the sequence lies in the cube from -1 to 1.
pub open spec fn all_in_cube(candidates: Seq<Vec3>) -> bool {
    forall|i: int| 0 <= i < candidates.len() ==> in_cube(#[trigger] candidates[i])
}

/// Whether every point of the sequence lies in the square from -1 to 1 of the
/// plane `z = 0`.
pub open spec fn all_in_square(candidates: Seq<Vec3>) -> bool {
    forall|i: int|
        0 <= i < candidates.len() ==> in_cube(#[trigger] candidates[i]) && candidates[i].z
            == Scalar::zero()
}

/// The first of the points that lies strictly inside the unit sphere, and the
/// centre where none does.
pub open spec fn first_inside_spec(candidates: Seq<Vec3>) -> Vec3
    decreases candidates.len(),
{
    if candidates.len() == 0 {
        Vec3::zero()
    } else if inside_unit_sphere(&candidates[0]) {
        candidates[0]
    } else {
        first_inside_spec(candidates.drop_first())
    }
}

/// Whether the points are what one run of rejection sampling draws: at least
/// one and at most `SAMPLE_ATTEMPTS`, none but the last inside the unit
/// sphere, and the last one inside unless the attempts have run out.
pub open spec fn rejection_run(candidates: Seq<Vec3>) -> bool {
    &&& 1 <= candidates.len() <= SAMPLE_ATTEMPTS
    &&& forall|i: int|
        0 <= i < candidates.len() - 1 ==> !inside_unit_sphere(&#[trigger] candidates[i])
    &&& inside_unit_sphere(&candidates.last()) || candidates.len() == SAMPLE_ATTEMPTS
}

/// Whether the point is what rejection sampling in the unit sphere can
/// return: the first point inside, or the centre, of a run of points drawn
/// from the surrounding cube.
pub open spec fn sphere_draw(r: Vec3) -> bool {
    exists|candidates: Seq<Vec3>|
        rejection_run(candidates) && all_in_cube(candidates) && r == #[trigger] first_inside_spec(
            candidates,
        )
}

/// Whether the point is what rejection sampling in the unit disk can return:
/// the first point inside, or the centre, of a run of points drawn from the
/// surrounding square.
pub open spec fn disk_draw(r: Vec3) -> bool {
    exists|candidates: Seq<Vec3>|
        rejection_run(candidates) && all_in_square(candidates) && r == #[trigger] first_inside_spec(
            candidates,
        )
}

/// Of points of which none but the last lies inside the unit sphere, the
/// first inside is the last, if that lies inside, and else the centre.
pub proof fn lemma_first_inside_of_run(candidates: Seq<Vec3>)
    requires
        1 <= candidates.len(),
        forall|i: int|
            0 <= i < candidates.len() - 1 ==> !inside_unit_sphere(&#[trigger] candidates[i]),
    ensures
        first_inside_spec(candidates) == (if inside_unit_sphere(&candidates.last()) {
            candidates.last()
        } else {
            Vec3::zero()
        }),
    decreases candidates.len(),
{
    if candidates.len() > 1 {
        let rest = candidates.drop_first();
        assert(!inside_unit_sphere(&candidates[0]));
        assert forall|i: int| 0 <= i < rest.len() - 1 implies !inside_unit_sphere(
            &#[trigger] rest[i],
        ) by {
            assert(rest[i] == candidates[i + 1]);
        }
        assert(rest.last() == candidates.last());
        lemma_first_inside_of_run(rest);
    } else {
        assert(candidates.last() == candidates[0]);
        assert(candidates.drop_first().len() == 0);
        assert(first_inside_spec(candidates.drop_first()) == Vec3::zero());
    }
}

/// The first of the given points that lies strictly inside the unit sphere,
/// and the centre where none does: what a run of rejection sampling returns
/// for the points that it drew.
pub fn first_inside(candidates: &Vec<Vec3>) -> (r: Vec3)
    ensures
        r == first_inside_spec(candidates@),
{
    let mut i: usize = 0;
    proof {
        assert(candidates@.skip(0) == candidates@);
    }
    while i < candidates.len()
        invariant
            i <= candidates@.len(),
            first_inside_spec(candidates@) == first_inside_spec(candidates@.skip(i as int)),
        decreases candidates@.len() - i,
    {
        let p = candidates[i];
        proof {
            let rest = candidates@.skip(i as int);
            assert(rest[0] == candidates@[i as int]);
            assert(rest.drop_first() == candidates@.skip(i + 1));
        }
        if inside_unit_sphere(&p) {
            return p;
        }
        i += 1;
    }
    proof {
        assert(candidates@.skip(i as int).len() == 0);
    }
    Vec3::zero()
}

} // verus!
