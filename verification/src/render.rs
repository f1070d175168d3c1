//! The integrator: the light that comes back along a ray.

use vstd::prelude::*;

use crate::camera::Camera;
use crate::hittable::Hittable;
use crate::material::{black, ScatterSample};
use crate::ray::Ray;
use crate::scalar::{Scalar, RAW_ONE};
use crate::util::random_f64;
use crate::vec3::{inside_unit_sphere, Color, Vec3};

verus! {

/// The random numbers that one bounce of a ray may use.
#[derive(Clone, Copy, Debug, PartialEq, Eq, Structural)]
pub struct BounceSample {
    /// The logarithm of a number in `[0, 1)`, for the fogs.
    pub log_u: Scalar,
    /// The numbers for the scattering.
    pub scatter: ScatterSample,
}

/// The smallest parameter at which a hit counts: `10^-3`, so that a ray does
/// not hit the surface that it leaves.
pub open spec fn shadow_bias() -> Scalar {
    Scalar::from_ratio(1, 1000)
}

impl BounceSample {
    /// Whether the sample is one that `random` can draw.
    pub open spec fn valid(&self) -> bool {
        self.scatter.valid() && exists|u: Scalar| 0 <= u.raw < RAW_ONE && self.log_u == u.ln()
    }

    /// A fresh random sample.
    pub fn random() -> (s: BounceSample)
        ensures
            s.valid(),
    {
        let u = random_f64();
        BounceSample { log_u: u.ln(), scatter: ScatterSample::random() }
    }
}

/// Whether every sample of the sequence is valid.
pub open spec fn all_valid(samples: Seq<BounceSample>) -> bool {
    forall|i: int| 0 <= i < samples.len() ==> (#[trigger] samples[i]).valid()
}

/// The light along the ray `r` for given random numbers, of which the bounce
/// with `depth` bounces left uses the entry `depth - 1`. With no bounce left
/// there is no light. A ray that hits nothing sees the background. At a hit
/// there is the light that the surface gives off, and, where the surface
/// scatters the ray, the light along the scattered ray, filtered by the
/// surface's colour.
pub open spec fn ray_color_spec(
    r: &Ray,
    background: &Color,
    world: &Hittable,
    depth: i32,
    samples: Seq<BounceSample>,
) -> Color
    decreases depth,
{
    if depth <= 0 {
        black()
    } else {
        let sample = samples[depth - 1];
        match world.hit_with_spec(r, shadow_bias(), Scalar::infinity(), sample.log_u) {
            None => *background,
            Some(rec) => {
                let emitted = rec.mat_ptr.emitted(rec.u, rec.v, &rec.p);
                match rec.mat_ptr.scatter_with(r, &rec, &sample.scatter) {
                    None => emitted,
                    Some((attenuation, scattered)) => emitted.add(
                        attenuation.mul(
                            ray_color_spec(&scattered, background, world, (depth - 1) as i32, samples),
                        ),
                    ),
                }
            },
        }
    }
}

/// The light along a ray depends on the first `depth` samples only.
pub proof fn lemma_later_samples_unused(
    r: &Ray,
    background: &Color,
    world: &Hittable,
    depth: i32,
    a: Seq<BounceSample>,
    b: Seq<BounceSample>,
)
    requires
        forall|i: int| 0 <= i < depth ==> a[i] == b[i],
    ensures
        ray_color_spec(r, background, world, depth, a) == ray_color_spec(
            r,
            background,
            world,
            depth,
            b,
        ),
    decreases depth,
{
    if depth > 0 {
        let sample = a[depth - 1];
        assert(sample == b[depth - 1]);
        match world.hit_with_spec(r, shadow_bias(), Scalar::infinity(), sample.log_u) {
            None => {},
            Some(rec) => {
                match rec.mat_ptr.scatter_with(r, &rec, &sample.scatter) {
                    None => {},
                    Some((attenuation, scattered)) => {
                        lemma_later_samples_unused(
                            &scattered,
                            background,
                            world,
                            (depth - 1) as i32,
                            a,
                            b,
                        );
                    },
                }
            },
        }
    }
}

/// The light along the ray for given random numbers.
pub fn ray_color_with(
    r: &Ray,
    background: &Color,
    world: &Hittable,
    depth: i32,
    samples: &Vec<BounceSample>,
) -> (c: Color)
    requires
        depth <= samples@.len(),
    ensures
        c == ray_color_spec(r, background, world, depth, samples@),
    decreases depth,
{
    if depth <= 0 {
        return Color::zero();
    }
    let sample = &samples[(depth - 1) as usize];
    match world.hit_with(r, Scalar::from_ratio(1, 1000), Scalar::infinity(), sample.log_u) {
        Some(rec) => {
            let emitted = rec.mat_ptr.emitted(rec.u, rec.v, &rec.p);
            match rec.mat_ptr.scatter_with(r, &rec, &sample.scatter) {
                Some((attenuation, scattered)) => emitted.add(
                    attenuation.mul(ray_color_with(&scattered, background, world, depth - 1, samples)),
                ),
                None => emitted,
            }
        },
        None => *background,
    }
}

/// The light along the ray, with fresh random numbers at every bounce, and
/// the numbers that were drawn.
fn ray_color_drawing(r: &Ray, background: &Color, world: &Hittable, depth: i32) -> (out: (
    Color,
    Ghost<Seq<BounceSample>>,
))
    ensures
        out.1@.len() == (if depth > 0 { depth as int } else { 0 }),
        all_valid(out.1@),
        out.0 == ray_color_spec(r, background, world, depth, out.1@),
    decreases depth,
{
    if depth <= 0 {
        return (Color::zero(), Ghost(Seq::empty()));
    }
    let sample = BounceSample::random();
    match world.hit_with(r, Scalar::from_ratio(1, 1000), Scalar::infinity(), sample.log_u) {
        Some(rec) => {
            let emitted = rec.mat_ptr.emitted(rec.u, rec.v, &rec.p);
            match rec.mat_ptr.scatter_with(r, &rec, &sample.scatter) {
                Some((attenuation, scattered)) => {
                    let (rest, Ghost(drawn)) = ray_color_drawing(
                        &scattered,
                        background,
                        world,
                        depth - 1,
                    );
                    let ghost all = drawn.push(sample);
                    proof {
                        lemma_later_samples_unused(
                            &scattered,
                            background,
                            world,
                            (depth - 1) as i32,
                            drawn,
                            all,
                        );
                    }
                    (emitted.add(attenuation.mul(rest)), Ghost(all))
                },
                None => {
                    let ghost all = Seq::new(depth as nat, |i: int| sample);
                    (emitted, Ghost(all))
                },
            }
        },
        None => {
            let ghost all = Seq::new(depth as nat, |i: int| sample);
            (*background, Ghost(all))
        },
    }
}

/// The light along the ray, with fresh random numbers at every bounce.
pub fn ray_color(r: &Ray, background: &Color, world: &Hittable, depth: i32) -> (c: Color)
    ensures
        depth <= 0 ==> c == black(),
        exists|samples: Seq<BounceSample>|
            all_valid(samples) && c == #[trigger] ray_color_spec(r, background, world, depth, samples),
{
    let (c, Ghost(drawn)) = ray_color_drawing(r, background, world, depth);
    c
}

/// The random numbers that one sample of a pixel uses.
pub struct SampleDraws {
    /// How far into the pixel the sample lies, across and up: in `[0, 1)`.
    pub jitter_u: Scalar,
    pub jitter_v: Scalar,
    /// The point of the unit disk that places the ray on the lens.
    pub disk: Vec3,
    /// The time at which the ray is cast.
    pub time: Scalar,
    /// The numbers of the ray's bounces.
    pub bounces: Seq<BounceSample>,
}

/// The random numbers of one sample of a pixel, as they are handed in.
pub struct PixelSample {
    pub jitter_u: Scalar,
    pub jitter_v: Scalar,
    pub disk: Vec3,
    pub time: Scalar,
    pub bounces: Vec<BounceSample>,
}

impl View for PixelSample {
    type V = SampleDraws;

    open spec fn view(&self) -> SampleDraws {
        SampleDraws {
            jitter_u: self.jitter_u,
            jitter_v: self.jitter_v,
            disk: self.disk,
            time: self.time,
            bounces: self.bounces@,
        }
    }
}

/// The place of a sample across the picture, as a share of its size: the
/// pixel's index plus the jitter, over the size less one.
pub open spec fn picture_coordinate_spec(index: i32, jitter: Scalar, size: i32) -> Scalar {
    Scalar::from_int(index).add(jitter).div(Scalar::from_int(size).sub(Scalar::one()))
}

/// The ray of one sample of the pixel in column `i` and row `j` of a picture
/// of `image_width` by `image_height` pixels.
pub open spec fn sample_ray(
    cam: &Camera,
    i: i32,
    j: i32,
    image_width: i32,
    image_height: i32,
    draws: SampleDraws,
) -> Ray {
    cam.get_ray_with(
        picture_coordinate_spec(i, draws.jitter_u, image_width),
        picture_coordinate_spec(j, draws.jitter_v, image_height),
        draws.disk,
        draws.time,
    )
}

/// The light of one sample of a pixel: the light along the sample's ray, with
/// at most `max_depth` bounces.
#[verifier::opaque]
pub open spec fn sample_light(
    cam: &Camera,
    world: &Hittable,
    background: &Color,
    i: i32,
    j: i32,
    image_width: i32,
    image_height: i32,
    max_depth: i32,
    draws: SampleDraws,
) -> Color {
    ray_color_spec(
        &sample_ray(cam, i, j, image_width, image_height, draws),
        background,
        world,
        max_depth,
        draws.bounces,
    )
}

/// Whether the numbers are such as one sample of a pixel can draw.
pub open spec fn valid_draws(cam: &Camera, draws: SampleDraws) -> bool {
    &&& 0 <= draws.jitter_u.raw < RAW_ONE
    &&& 0 <= draws.jitter_v.raw < RAW_ONE
    &&& inside_unit_sphere(&draws.disk)
    &&& draws.disk.z == Scalar::zero()
    &&& cam.shutter_open_at(draws.time)
    &&& all_valid(draws.bounces)
}

/// Whether every entry of the sequence is such as a sample can draw.
pub open spec fn all_valid_draws(cam: &Camera, samples: Seq<SampleDraws>) -> bool {
    forall|k: int| 0 <= k < samples.len() ==> valid_draws(cam, #[trigger] samples[k])
}

/// The sum of the light of the first `n` samples of a pixel.
pub open spec fn pixel_sum(
    cam: &Camera,
    world: &Hittable,
    background: &Color,
    i: i32,
    j: i32,
    image_width: i32,
    image_height: i32,
    max_depth: i32,
    samples: Seq<SampleDraws>,
    n: nat,
) -> Color
    decreases n,
{
    if n == 0 || n > samples.len() {
        black()
    } else {
        pixel_sum(
            cam,
            world,
            background,
            i,
            j,
            image_width,
            image_height,
            max_depth,
            samples,
            (n - 1) as nat,
        ).add(
            sample_light(
                cam,
                world,
                background,
                i,
                j,
                image_width,
                image_height,
                max_depth,
                samples[n - 1],
            ),
        )
    }
}

/// The sum of the first samples does not depend on the samples after them.
pub proof fn lemma_pixel_sum_of_prefix(
    cam: &Camera,
    world: &Hittable,
    background: &Color,
    i: i32,
    j: i32,
    image_width: i32,
    image_height: i32,
    max_depth: i32,
    samples: Seq<SampleDraws>,
    more: SampleDraws,
    n: nat,
)
    requires
        n <= samples.len(),
    ensures
        pixel_sum(
            cam,
            world,
            background,
            i,
            j,
            image_width,
            image_height,
            max_depth,
            samples.push(more),
            n,
        ) == pixel_sum(cam, world, background, i, j, image_width, image_height, max_depth, samples, n),
    decreases n,
{
    if n > 0 {
        lemma_pixel_sum_of_prefix(
            cam,
            world,
            background,
            i,
            j,
            image_width,
            image_height,
            max_depth,
            samples,
            more,
            (n - 1) as nat,
        );
        assert(samples.push(more)[n - 1] == samples[n - 1]);
    }
}

#[verifier::when_used_as_spec(picture_coordinate_spec)]
pub fn picture_coordinate(index: i32, jitter: Scalar, size: i32) -> (c: Scalar)
    ensures
        c == picture_coordinate_spec(index, jitter, size),
{
    Scalar::from_int(index).add(jitter).div(Scalar::from_int(size).sub(Scalar::one()))
}

/// The sum of the light of the given samples of the pixel in column `i` and
/// row `j`.
pub fn pixel_color_with(
    cam: &Camera,
    world: &Hittable,
    background: &Color,
    i: i32,
    j: i32,
    image_width: i32,
    image_height: i32,
    max_depth: i32,
    samples: &Vec<PixelSample>,
) -> (c: Color)
    requires
        forall|k: int| 0 <= k < samples@.len() ==> max_depth <= (#[trigger] samples@[k]).bounces@.len(),
    ensures
        c == pixel_sum(
            cam,
            world,
            background,
            i,
            j,
            image_width,
            image_height,
            max_depth,
            samples@.map_values(|s: PixelSample| s@),
            samples@.len(),
        ),
{
    let ghost draws = samples@.map_values(|s: PixelSample| s@);
    let mut pixel = Color::zero();
    let mut k: usize = 0;
    while k < samples.len()
        invariant
            k <= samples@.len(),
            draws == samples@.map_values(|s: PixelSample| s@),
            forall|n: int|
                0 <= n < samples@.len() ==> max_depth <= (#[trigger] samples@[n]).bounces@.len(),
            pixel == pixel_sum(
                cam,
                world,
                background,
                i,
                j,
                image_width,
                image_height,
                max_depth,
                draws,
                k as nat,
            ),
        decreases samples@.len() - k,
    {
        let sample = &samples[k];
        let u = picture_coordinate(i, sample.jitter_u, image_width);
        let v = picture_coordinate(j, sample.jitter_v, image_height);
        let r = cam.get_ray_with(u, v, sample.disk, sample.time);
        proof {
            reveal(sample_light);
            assert(draws[k as int] == samples@[k as int]@);
        }
        pixel = pixel.add(ray_color_with(&r, background, world, max_depth, &sample.bounces));
        k += 1;
    }
    pixel
}

/// The light of one fresh sample of a pixel, and the numbers that were drawn.
fn draw_sample(
    cam: &Camera,
    world: &Hittable,
    background: &Color,
    i: i32,
    j: i32,
    image_width: i32,
    image_height: i32,
    max_depth: i32,
) -> (out: (Color, Ghost<SampleDraws>))
    ensures
        valid_draws(cam, out.1@),
        out.0 == sample_light(
            cam,
            world,
            background,
            i,
            j,
            image_width,
            image_height,
            max_depth,
            out.1@,
        ),
{
    let jitter_u = random_f64();
    let jitter_v = random_f64();
    let u = picture_coordinate(i, jitter_u, image_width);
    let v = picture_coordinate(j, jitter_v, image_height);
    let r = cam.get_ray(u, v);
    let light = ray_color(&r, background, world, max_depth);
    let ghost draws = {
        let (disk, time) = choose|disk: Vec3, time: Scalar|
            inside_unit_sphere(&disk) && disk.z == Scalar::zero() && cam.shutter_open_at(time) && r
                == #[trigger] cam.get_ray_with(u, v, disk, time);
        let bounces = choose|samples: Seq<BounceSample>|
            all_valid(samples) && light == #[trigger] ray_color_spec(
                &r,
                background,
                world,
                max_depth,
                samples,
            );
        SampleDraws { jitter_u, jitter_v, disk, time, bounces }
    };
    proof {
        reveal(sample_light);
        assert(sample_ray(cam, i, j, image_width, image_height, draws) == r);
    }
    (light, Ghost(draws))
}

/// The sum of the light of `samples_per_pixel` samples of the pixel in column
/// `i` and row `j` of a picture of `image_width` by `image_height` pixels:
/// each sample lies at a random place in the pixel, and its ray is cast from
/// a random point of the lens at a random time and followed for at most
/// `max_depth` bounces.
pub fn pixel_color(
    cam: &Camera,
    world: &Hittable,
    background: &Color,
    i: i32,
    j: i32,
    image_width: i32,
    image_height: i32,
    samples_per_pixel: i32,
    max_depth: i32,
) -> (c: Color)
    ensures
        samples_per_pixel <= 0 ==> c == black(),
        exists|samples: Seq<SampleDraws>|
            samples.len() == (if samples_per_pixel > 0 { samples_per_pixel as int } else { 0 })
                && all_valid_draws(cam, samples) && c == #[trigger] pixel_sum(
                cam,
                world,
                background,
                i,
                j,
                image_width,
                image_height,
                max_depth,
                samples,
                samples.len(),
            ),
{
    let ghost mut drawn: Seq<SampleDraws> = Seq::empty();
    let mut pixel = Color::zero();
    let mut k: i32 = 0;
    while k < samples_per_pixel
        invariant
            0 <= k,
            k <= samples_per_pixel || k == 0,
            drawn.len() == k,
            all_valid_draws(cam, drawn),
            pixel == pixel_sum(
                cam,
                world,
                background,
                i,
                j,
                image_width,
                image_height,
                max_depth,
                drawn,
                drawn.len(),
            ),
        decreases samples_per_pixel - k,
    {
        let (light, Ghost(draws)) = draw_sample(
            cam,
            world,
            background,
            i,
            j,
            image_width,
            image_height,
            max_depth,
        );
        proof {
            lemma_pixel_sum_of_prefix(
                cam,
                world,
                background,
                i,
                j,
                image_width,
                image_height,
                max_depth,
                drawn,
                draws,
                drawn.len(),
            );
            assert(drawn.push(draws)[drawn.len() as int] == draws);
            drawn = drawn.push(draws);
        }
        pixel = pixel.add(light);
        k += 1;
    }
    proof {
        assert(drawn.len() == (if samples_per_pixel > 0 { samples_per_pixel as int } else { 0 }));
        assert(all_valid_draws(cam, drawn) && pixel == pixel_sum(
            cam,
            world,
            background,
            i,
            j,
            image_width,
            image_height,
            max_depth,
            drawn,
            drawn.len(),
        ));
    }
    pixel
}

} // verus!
