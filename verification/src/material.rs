//! Materials: what becomes of a ray that meets a surface.

use std::rc::Rc;
use vstd::prelude::*;

use crate::hittable::HitRecord;
use crate::ray::Ray;
use crate::scalar::{
    lemma_div_unit_interval, lemma_mul_unit_interval, lemma_square_unit_interval, Scalar, RAW_ONE,
};
use crate::texture::{SolidColor, Texture};
use crate::util::random_f64;
use crate::vec3::{
    dot, inside_unit_sphere, random_in_unit_sphere, reflect, refract, sphere_draw, unit_vector,
    Color, Point3, Vec3,
};

verus! {

/// The random numbers that one scattering may use.
#[derive(Clone, Copy, Debug, PartialEq, Eq, Structural)]
pub struct ScatterSample {
    /// A point strictly inside the unit sphere.
    pub in_sphere: Vec3,
    /// A number in `[0, 1)`.
    pub threshold: Scalar,
}

/// A matte surface.
pub struct Lambertian {
    pub albedo: Rc<Texture>,
}

/// A mirror, more or less polished.
pub struct Metal {
    pub albedo: Color,
    pub fuzz: Scalar,
}

/// A clear material such as glass, with its refractive index.
pub struct Dielectric {
    pub ir: Scalar,
}

/// A surface that gives off light and scatters none.
pub struct DiffuseLight {
    pub emit: Rc<Texture>,
}

/// The matter of a fog: it scatters evenly in every direction.
pub struct Isotrophic {
    pub albedo: Rc<Texture>,
}

/// Any of the materials.
pub enum Material {
    Lambertian(Lambertian),
    Metal(Metal),
    Dielectric(Dielectric),
    DiffuseLight(DiffuseLight),
    Isotrophic(Isotrophic),
}

/// The colour black, which a surface without light of its own gives off.
pub open spec fn black() -> Color {
    Vec3::zero()
}

/// The colour white, which takes nothing from the light.
pub open spec fn white() -> Color {
    Vec3 { x: Scalar::one(), y: Scalar::one(), z: Scalar::one() }
}

impl ScatterSample {
    /// Whether the sample is one that `random` can draw.
    pub open spec fn valid(&self) -> bool {
        inside_unit_sphere(&self.in_sphere) && 0 <= self.threshold.raw < RAW_ONE
    }

    /// A fresh random sample: a point drawn by rejection sampling in the unit
    /// sphere, and a number drawn from `[0, 1)`.
    pub fn random() -> (s: ScatterSample)
        ensures
            s.valid(),
            sphere_draw(s.in_sphere),
    {
        ScatterSample { in_sphere: random_in_unit_sphere(), threshold: random_f64() }
    }
}

impl Lambertian {
    /// The direction of the scattered ray: the normal plus a random unit
    /// vector, or the normal alone where the two all but cancel.
    pub open spec fn scatter_direction(rec: &HitRecord, sample: &ScatterSample) -> Vec3 {
        let direction = rec.normal.add(unit_vector(&sample.in_sphere));
        if direction.near_zero() {
            rec.normal
        } else {
            direction
        }
    }

    pub open spec fn scatter_spec(&self, r_in: &Ray, rec: &HitRecord, sample: &ScatterSample) -> Option<
        (Color, Ray),
    > {
        Some(
            (
                self.albedo.value(rec.u, rec.v, &rec.p),
                Ray { orig: rec.p, dir: Self::scatter_direction(rec, sample), tm: r_in.tm },
            ),
        )
    }

    /// A matte surface of one colour.
    pub fn new(albedo: Color) -> (r: Lambertian)
        ensures
            *r.albedo == Texture::SolidColor(SolidColor::from(albedo)),
    {
        Lambertian { albedo: Rc::new(Texture::SolidColor(SolidColor::from(albedo))) }
    }

    /// A matte surface with the given texture.
    pub fn from(texture: Rc<Texture>) -> (r: Lambertian)
        ensures
            r.albedo == texture,
    {
        Lambertian { albedo: texture }
    }

    #[verifier::when_used_as_spec(scatter_spec)]
    pub fn scatter(&self, r_in: &Ray, rec: &HitRecord, sample: &ScatterSample) -> (r: Option<
        (Color, Ray),
    >)
        ensures
            r == self.scatter_spec(r_in, rec, sample),
    {
        let mut scatter_direction = rec.normal.add(unit_vector(&sample.in_sphere));
        if scatter_direction.near_zero() {
            scatter_direction = rec.normal;
        }
        Some(
            (
                self.albedo.value(rec.u, rec.v, &rec.p),
                Ray::new(rec.p, scatter_direction, r_in.time()),
            ),
        )
    }
}

impl Metal {
    /// The direction of the scattered ray: the mirror image of the incoming
    /// direction, blurred by `fuzz` times a random unit vector.
    pub open spec fn scatter_direction(&self, r_in: &Ray, rec: &HitRecord, sample: &ScatterSample) -> Vec3 {
        reflect(&unit_vector(&r_in.dir), &rec.normal).add(
            unit_vector(&sample.in_sphere).scale(self.fuzz),
        )
    }

    /// The ray is absorbed where the blurred direction points into the
    /// surface, and scattered with the metal's colour otherwise.
    pub open spec fn scatter_spec(&self, r_in: &Ray, rec: &HitRecord, sample: &ScatterSample) -> Option<
        (Color, Ray),
    > {
        let direction = self.scatter_direction(r_in, rec, sample);
        if dot(&direction, &rec.normal).le(Scalar::zero()) {
            None
        } else {
            Some((self.albedo, Ray { orig: rec.p, dir: direction, tm: r_in.tm }))
        }
    }

    pub fn new(albedo: Vec3, fuzz: Scalar) -> (r: Metal)
        ensures
            r.albedo == albedo,
            r.fuzz == fuzz,
    {
        Metal { albedo, fuzz }
    }

    #[verifier::when_used_as_spec(scatter_spec)]
    pub fn scatter(&self, r_in: &Ray, rec: &HitRecord, sample: &ScatterSample) -> (r: Option<
        (Color, Ray),
    >)
        ensures
            r == self.scatter_spec(r_in, rec, sample),
    {
        let reflected = reflect(&unit_vector(&r_in.direction()), &rec.normal);
        let scattered = Ray::new(
            rec.p,
            reflected.add(unit_vector(&sample.in_sphere).scale(self.fuzz)),
            r_in.time(),
        );
        let attenuation = self.albedo;
        if dot(&scattered.direction(), &rec.normal).le(Scalar::zero()) {
            None
        } else {
            Some((attenuation, scattered))
        }
    }
}

impl Dielectric {
    /// Schlick's approximation of the share of light that is reflected:
    /// `r0 + (1 - r0) (1 - cosine)^5` with `r0 = ((1 - n) / (1 + n))^2`.
    pub open spec fn reflectance_spec(cosine: Scalar, ref_idx: Scalar) -> Scalar {
        let one = Scalar::one();
        let r0 = Self::base_reflectance(ref_idx);
        r0.add(one.sub(r0).mul(one.sub(cosine).pow5()))
    }

    /// The reflectance at normal incidence: `((1 - n) / (1 + n))^2`.
    pub open spec fn base_reflectance(ref_idx: Scalar) -> Scalar {
        let one = Scalar::one();
        let root = one.sub(ref_idx).div(one.add(ref_idx));
        root.mul(root)
    }

    /// The ratio of the refractive indices that the ray passes between.
    pub open spec fn refraction_ratio(&self, rec: &HitRecord) -> Scalar {
        if rec.front_face {
            Scalar::one().div(self.ir)
        } else {
            self.ir
        }
    }

    /// The cosine of the angle between the incoming ray and the normal,
    /// capped at one.
    pub open spec fn cos_theta(r_in: &Ray, rec: &HitRecord) -> Scalar {
        dot(&unit_vector(&r_in.dir).neg(), &rec.normal).min(Scalar::one())
    }

    /// Whether the ray is reflected: where Snell's law has no solution, or
    /// where the reflectance exceeds the sample's threshold.
    pub open spec fn reflects(&self, r_in: &Ray, rec: &HitRecord, sample: &ScatterSample) -> bool {
        let ratio = self.refraction_ratio(rec);
        let cos_theta = Self::cos_theta(r_in, rec);
        let sin_theta = Scalar::one().sub(cos_theta.mul(cos_theta)).sqrt();
        ratio.mul(sin_theta).gt(Scalar::one()) || Self::reflectance_spec(cos_theta, ratio).gt(
            sample.threshold,
        )
    }

    /// The ray goes on, reflected or refracted, with nothing taken from it.
    pub open spec fn scatter_spec(&self, r_in: &Ray, rec: &HitRecord, sample: &ScatterSample) -> Option<
        (Color, Ray),
    > {
        let unit_direction = unit_vector(&r_in.dir);
        let direction = if self.reflects(r_in, rec, sample) {
            reflect(&unit_direction, &rec.normal)
        } else {
            refract(&unit_direction, &rec.normal, self.refraction_ratio(rec))
        };
        Some((white(), Ray { orig: rec.p, dir: direction, tm: r_in.tm }))
    }

    pub fn new(ir: Scalar) -> (r: Dielectric)
        ensures
            r.ir == ir,
    {
        Dielectric { ir }
    }

    #[verifier::when_used_as_spec(reflectance_spec)]
    pub fn reflectance(cosine: Scalar, ref_idx: Scalar) -> (r: Scalar)
        ensures
            r == Self::reflectance_spec(cosine, ref_idx),
    {
        let one = Scalar::one();
        let mut r0 = one.sub(ref_idx).div(one.add(ref_idx));
        r0 = r0.mul(r0);
        r0.add(one.sub(r0).mul(one.sub(cosine).pow5()))
    }

    #[verifier::when_used_as_spec(scatter_spec)]
    pub fn scatter(&self, r_in: &Ray, rec: &HitRecord, sample: &ScatterSample) -> (r: Option<
        (Color, Ray),
    >)
        ensures
            r == self.scatter_spec(r_in, rec, sample),
    {
        let one = Scalar::one();
        let refraction_ratio = if rec.front_face {
            one.div(self.ir)
        } else {
            self.ir
        };
        let unit_direction = unit_vector(&r_in.direction());
        let cos_theta = dot(&unit_direction.neg(), &rec.normal).min(one);
        let sin_theta = one.sub(cos_theta.mul(cos_theta)).sqrt();
        let cannot_refract = refraction_ratio.mul(sin_theta).gt(one);
        let direction = if cannot_refract || Dielectric::reflectance(cos_theta, refraction_ratio).gt(
            sample.threshold,
        ) {
            reflect(&unit_direction, &rec.normal)
        } else {
            refract(&unit_direction, &rec.normal, refraction_ratio)
        };
        Some((Color::new(one, one, one), Ray::new(rec.p, direction, r_in.time())))
    }
}

impl DiffuseLight {
    pub open spec fn scatter_spec(&self, r_in: &Ray, rec: &HitRecord, sample: &ScatterSample) -> Option<
        (Color, Ray),
    > {
        None
    }

    pub open spec fn emitted_spec(&self, u: Scalar, v: Scalar, p: &Point3) -> Color {
        self.emit.value(u, v, p)
    }

    /// A light with the given texture.
    pub fn new(emit: Rc<Texture>) -> (r: DiffuseLight)
        ensures
            r.emit == emit,
    {
        DiffuseLight { emit }
    }

    /// A light of one colour.
    pub fn from(color: Color) -> (r: DiffuseLight)
        ensures
            *r.emit == Texture::SolidColor(SolidColor::from(color)),
    {
        DiffuseLight { emit: Rc::new(Texture::SolidColor(SolidColor::from(color))) }
    }

    #[verifier::when_used_as_spec(scatter_spec)]
    pub fn scatter(&self, r_in: &Ray, rec: &HitRecord, sample: &ScatterSample) -> (r: Option<
        (Color, Ray),
    >)
        ensures
            r == self.scatter_spec(r_in, rec, sample),
    {
        None
    }

    #[verifier::when_used_as_spec(emitted_spec)]
    pub fn emitted(&self, u: Scalar, v: Scalar, p: &Point3) -> (c: Color)
        ensures
            c == self.emitted_spec(u, v, p),
    {
        self.emit.value(u, v, p)
    }
}

impl Isotrophic {
    /// The ray goes on from the point of the hit in the sample's direction.
    pub open spec fn scatter_spec(&self, r_in: &Ray, rec: &HitRecord, sample: &ScatterSample) -> Option<
        (Color, Ray),
    > {
        Some(
            (
                self.albedo.value(rec.u, rec.v, &rec.p),
                Ray { orig: rec.p, dir: sample.in_sphere, tm: r_in.tm },
            ),
        )
    }

    /// Fog with the given texture.
    pub fn new(albedo: Rc<Texture>) -> (r: Isotrophic)
        ensures
            r.albedo == albedo,
    {
        Isotrophic { albedo }
    }

    /// Fog of one colour.
    pub fn from(c: Color) -> (r: Isotrophic)
        ensures
            *r.albedo == Texture::SolidColor(SolidColor::from(c)),
    {
        Isotrophic { albedo: Rc::new(Texture::SolidColor(SolidColor::from(c))) }
    }

    #[verifier::when_used_as_spec(scatter_spec)]
    pub fn scatter(&self, r_in: &Ray, rec: &HitRecord, sample: &ScatterSample) -> (r: Option<
        (Color, Ray),
    >)
        ensures
            r == self.scatter_spec(r_in, rec, sample),
    {
        Some(
            (
                self.albedo.value(rec.u, rec.v, &rec.p),
                Ray::new(rec.p, sample.in_sphere, r_in.time()),
            ),
        )
    }
}

impl Material {
    /// What becomes of the ray `r_in` at the hit `rec`, for given random
    /// numbers: the colour that the light is filtered by and the ray that goes
    /// on, or nothing where the ray is absorbed.
    pub open spec fn scatter_with_spec(&self, r_in: &Ray, rec: &HitRecord, sample: &ScatterSample) -> Option<
        (Color, Ray),
    > {
        match self {
            Material::Lambertian(m) => m.scatter(r_in, rec, sample),
            Material::Metal(m) => m.scatter(r_in, rec, sample),
            Material::Dielectric(m) => m.scatter(r_in, rec, sample),
            Material::DiffuseLight(m) => m.scatter(r_in, rec, sample),
            Material::Isotrophic(m) => m.scatter(r_in, rec, sample),
        }
    }

    /// The light that the material gives off by itself: black for all but the
    /// lights.
    pub open spec fn emitted_spec(&self, u: Scalar, v: Scalar, p: &Point3) -> Color {
        match self {
            Material::DiffuseLight(m) => m.emitted(u, v, p),
            _ => black(),
        }
    }

    #[verifier::when_used_as_spec(scatter_with_spec)]
    pub fn scatter_with(&self, r_in: &Ray, rec: &HitRecord, sample: &ScatterSample) -> (r: Option<
        (Color, Ray),
    >)
        ensures
            r == self.scatter_with_spec(r_in, rec, sample),
    {
        match self {
            Material::Lambertian(m) => m.scatter(r_in, rec, sample),
            Material::Metal(m) => m.scatter(r_in, rec, sample),
            Material::Dielectric(m) => m.scatter(r_in, rec, sample),
            Material::DiffuseLight(m) => m.scatter(r_in, rec, sample),
            Material::Isotrophic(m) => m.scatter(r_in, rec, sample),
        }
    }

    /// Scatters the ray with fresh random numbers.
    pub fn scatter(&self, r_in: &Ray, rec: &HitRecord) -> (r: Option<(Color, Ray)>)
        ensures
            exists|sample: ScatterSample|
                sample.valid() && r == #[trigger] self.scatter_with(r_in, rec, &sample),
    {
        let sample = ScatterSample::random();
        self.scatter_with(r_in, rec, &sample)
    }

    #[verifier::when_used_as_spec(emitted_spec)]
    pub fn emitted(&self, u: Scalar, v: Scalar, p: &Point3) -> (c: Color)
        ensures
            c == self.emitted_spec(u, v, p),
    {
        match self {
            Material::DiffuseLight(m) => m.emitted(u, v, p),
            _ => Color::zero(),
        }
    }
}


/// Schlick's reflectance is a share: for a cosine between zero and one and a
/// positive refractive index it lies between zero and one. Head on, where the
/// cosine is one, it is the reflectance at normal incidence.
pub proof fn lemma_reflectance_is_a_share(cosine: Scalar, ref_idx: Scalar)
    requires
        0 <= cosine.raw <= RAW_ONE,
        0 < ref_idx.raw,
    ensures
        0 <= Dielectric::reflectance(cosine, ref_idx).raw <= RAW_ONE,
        0 <= Dielectric::base_reflectance(ref_idx).raw <= RAW_ONE,
        Dielectric::reflectance(Scalar::one(), ref_idx) == Dielectric::base_reflectance(ref_idx),
{
    let one = Scalar::one();
    let num = one.sub(ref_idx);
    let den = one.add(ref_idx);
    lemma_div_unit_interval(num, den);
    let root = num.div(den);
    lemma_square_unit_interval(root);
    let r0 = root.mul(root);
    assert(r0 == Dielectric::base_reflectance(ref_idx));
    let x = one.sub(cosine);
    lemma_mul_unit_interval(x, x);
    let sq = x.mul(x);
    lemma_mul_unit_interval(sq, sq);
    lemma_mul_unit_interval(sq.mul(sq), x);
    let rest = one.sub(r0);
    lemma_mul_unit_interval(rest, x.pow5());
    let zero = one.sub(one);
    assert(zero.raw == 0);
    assert(zero.pow5().raw == 0);
    assert(rest.mul(zero.pow5()).raw == 0);
}

} // verus!
