use std::rc::Rc;

use raytracer::camera::Camera;
use raytracer::color::{channel, write_color};
use raytracer::hittable::{HitRecord, Hittable};
use raytracer::hittable_list::HittableList;
use raytracer::material::{
    Dielectric, DiffuseLight, Isotrophic, Lambertian, Material, Metal, ScatterSample,
};
use raytracer::perlin::{Perlin, POINT_COUNT};
use raytracer::ray::Ray;
use raytracer::render::{
    picture_coordinate, pixel_color, pixel_color_with, ray_color, ray_color_with, BounceSample,
    PixelSample,
};
use raytracer::scalar::{Scalar, RAW_ONE};
use raytracer::sphere::Sphere;
use raytracer::texture::{CheckerTexture, ImageTexture, NoiseTexture, SolidColor, Texture};
use raytracer::util::{clamp, degrees_to_radians, random_f64, random_f64_range, random_i32_in_range};
use raytracer::vec3::{
    dot, first_inside, inside_unit_sphere, random_in_hemisphere, random_in_unit_disk, random_in_unit_sphere,
    random_unit_vector, toward, unit_vector, Vec3,
};

fn num(n: i64, d: i64) -> Scalar {
    Scalar::from_ratio(n, d)
}

fn whole(n: i32) -> Scalar {
    Scalar::from_int(n)
}

fn vec(x: i32, y: i32, z: i32) -> Vec3 {
    Vec3::new(whole(x), whole(y), whole(z))
}

fn approx(x: Scalar) -> f64 {
    x.raw as f64 / RAW_ONE as f64
}

fn close(x: Scalar, expected: f64, tolerance: f64) -> bool {
    (approx(x) - expected).abs() <= tolerance
}

fn solid(r: Scalar, g: Scalar, b: Scalar) -> Rc<Texture> {
    Rc::new(Texture::SolidColor(SolidColor::new(r, g, b)))
}

fn record(normal: Vec3, front_face: bool, material: Rc<Material>) -> HitRecord {
    HitRecord {
        p: vec(1, 2, 3),
        normal,
        mat_ptr: material,
        t: whole(1),
        u: num(1, 4),
        v: num(3, 4),
        front_face,
    }
}

fn sample(in_sphere: Vec3, threshold: Scalar) -> ScatterSample {
    ScatterSample { in_sphere, threshold }
}

fn bounce(log_u: Scalar, in_sphere: Vec3, threshold: Scalar) -> BounceSample {
    BounceSample { log_u, scatter: sample(in_sphere, threshold) }
}

fn identity_tables() -> Perlin {
    let ranvec: Vec<Vec3> = (0..POINT_COUNT).map(|i| if i % 2 == 0 { vec(1, 0, 0) } else { vec(0, 1, 0) }).collect();
    let perm: Vec<usize> = (0..POINT_COUNT).collect();
    Perlin::from_tables(ranvec, perm.clone(), perm.clone(), perm).unwrap()
}

#[test]
fn clamp_limits_to_the_interval() {
    assert_eq!(clamp(whole(5), whole(0), whole(1)), whole(1));
    assert_eq!(clamp(whole(-5), whole(0), whole(1)), whole(0));
    assert_eq!(clamp(num(1, 3), whole(0), whole(1)), num(1, 3));
}

#[test]
fn degrees_become_radians() {
    assert!(close(degrees_to_radians(whole(180)), std::f64::consts::PI, 1e-8));
    assert!(close(degrees_to_radians(whole(90)), std::f64::consts::FRAC_PI_2, 1e-8));
    assert_eq!(degrees_to_radians(whole(0)), whole(0));
    assert!(close(degrees_to_radians(whole(-45)), -std::f64::consts::FRAC_PI_4, 1e-8));
}

#[test]
fn random_numbers_stay_in_their_range_and_vary() {
    let mut seen_low = false;
    let mut seen_high = false;
    for _ in 0..1000 {
        let x = random_f64();
        assert!(x.raw >= 0 && x.raw < RAW_ONE);
        if x.lt(num(1, 2)) {
            seen_low = true;
        } else {
            seen_high = true;
        }
    }
    assert!(seen_low && seen_high);
}

#[test]
fn random_numbers_in_a_range_stay_in_it_and_vary() {
    let mut distinct = std::collections::HashSet::new();
    for _ in 0..200 {
        let x = random_f64_range(whole(-3), whole(7));
        assert!(x.ge(whole(-3)) && x.lt(whole(7)));
        distinct.insert(x.raw);
    }
    assert!(distinct.len() > 100);
    // A range of one raw step holds one number.
    let low = num(1, 2);
    let high = Scalar { raw: low.raw + 1 };
    assert_eq!(random_f64_range(low, high), low);
}

#[test]
fn random_integers_cover_the_inclusive_range() {
    let mut seen = [false; 3];
    for _ in 0..300 {
        let axis = random_i32_in_range(0, 2);
        assert!((0..=2).contains(&axis));
        seen[axis as usize] = true;
    }
    assert_eq!(seen, [true, true, true]);
    assert_eq!(random_i32_in_range(5, 5), 5);
    let n = random_i32_in_range(-10, -8);
    assert!((-10..=-8).contains(&n));
}

#[test]
fn random_vectors_stay_in_their_ranges() {
    for _ in 0..100 {
        let v = Vec3::random();
        assert!(v.x().ge(whole(0)) && v.x().lt(whole(1)));
        assert!(v.y().ge(whole(0)) && v.y().lt(whole(1)));
        assert!(v.z().ge(whole(0)) && v.z().lt(whole(1)));
        let v = Vec3::random_range(whole(2), whole(3));
        assert!(v.x().ge(whole(2)) && v.x().lt(whole(3)));
        assert!(v.y().ge(whole(2)) && v.y().lt(whole(3)));
        assert!(v.z().ge(whole(2)) && v.z().lt(whole(3)));
    }
}

#[test]
fn random_points_lie_in_the_sphere_and_the_disk() {
    let mut distinct = std::collections::HashSet::new();
    for _ in 0..200 {
        let p = random_in_unit_sphere();
        assert!(p.length_squared().lt(whole(1)));
        assert!(inside_unit_sphere(&p));
        distinct.insert((p.x().raw, p.y().raw, p.z().raw));
        let d = random_in_unit_disk();
        assert!(d.length_squared().lt(whole(1)));
        assert_eq!(d.z(), whole(0));
    }
    assert!(distinct.len() > 100);
}

#[test]
fn random_directions_have_length_one() {
    for _ in 0..100 {
        let u = random_unit_vector();
        let length = approx(u.length());
        // The centre of the sphere, which has no direction, is all but never drawn.
        assert!((length - 1.0).abs() < 1e-6 || u == vec(0, 0, 0));
    }
}

#[test]
fn random_points_of_a_hemisphere_lie_on_the_side_of_the_normal() {
    let normal = vec(0, 1, 0);
    for _ in 0..100 {
        let p = random_in_hemisphere(&normal);
        assert!(dot(&p, &normal).ge(whole(0)));
        assert!(p.length_squared().lt(whole(1)));
    }
}

#[test]
fn toward_turns_a_vector_to_the_side_of_the_normal() {
    assert_eq!(toward(&vec(1, 2, 3), &vec(0, 1, 0)), vec(1, 2, 3));
    assert_eq!(toward(&vec(1, -2, 3), &vec(0, 1, 0)), vec(-1, 2, -3));
    assert_eq!(toward(&vec(1, 0, 3), &vec(0, 1, 0)), vec(-1, 0, -3));
}

#[test]
fn solid_colour_is_the_same_everywhere() {
    let t = SolidColor::new(num(1, 2), num(1, 4), num(1, 8));
    let expected = Vec3::new(num(1, 2), num(1, 4), num(1, 8));
    assert_eq!(t.value(whole(0), whole(0), &vec(0, 0, 0)), expected);
    assert_eq!(t.value(num(1, 3), num(2, 3), &vec(9, -4, 7)), expected);
    assert_eq!(SolidColor::from(expected), t);
    assert_eq!(Texture::SolidColor(t).value(whole(1), whole(1), &vec(1, 1, 1)), expected);
}

#[test]
fn checker_alternates_with_the_sign_of_the_sines() {
    let even = vec(1, 0, 0);
    let odd = vec(0, 0, 1);
    let t = CheckerTexture::new(even, odd);
    // Ten times 0.1 is one radian: all three sines are positive.
    let p = Vec3::new(num(1, 10), num(1, 10), num(1, 10));
    assert_eq!(t.value(whole(0), whole(0), &p), even);
    // One negative sine: odd.
    let p = Vec3::new(num(-1, 10), num(1, 10), num(1, 10));
    assert_eq!(t.value(whole(0), whole(0), &p), odd);
    // Two negative sines: even again.
    let p = Vec3::new(num(-1, 10), num(-1, 10), num(1, 10));
    assert_eq!(t.value(whole(0), whole(0), &p), even);
    // Ten times 0.4 is four radians, past pi: negative.
    let p = Vec3::new(num(4, 10), num(1, 10), num(1, 10));
    assert_eq!(t.value(whole(0), whole(0), &p), odd);
    // A sine of zero is not negative.
    assert_eq!(t.value(whole(0), whole(0), &vec(0, 0, 0)), even);
}

#[test]
fn checker_of_textures_asks_its_parts() {
    let inner = CheckerTexture::new(vec(1, 1, 0), vec(0, 1, 1));
    let outer = CheckerTexture {
        even: Rc::new(Texture::Checker(inner)),
        odd: solid(whole(0), whole(0), whole(0)),
    };
    let p = Vec3::new(num(1, 10), num(1, 10), num(1, 10));
    assert_eq!(Texture::Checker(outer).value(whole(0), whole(0), &p), vec(1, 1, 0));
}

#[test]
fn image_looks_up_the_pixel_upside_down() {
    // Two by two: red, green on top; blue, white below.
    let bytes = vec![255, 0, 0, 0, 255, 0, 0, 0, 255, 255, 255, 255];
    let t = ImageTexture::new(Some(bytes), 2, 2);
    let p = vec(0, 0, 0);
    // v = 1 is the top row.
    assert_eq!(t.value(num(1, 4), num(3, 4), &p), vec(1, 0, 0));
    assert_eq!(t.value(num(3, 4), num(3, 4), &p), vec(0, 1, 0));
    assert_eq!(t.value(num(1, 4), num(1, 4), &p), vec(0, 0, 1));
    assert_eq!(t.value(num(3, 4), num(1, 4), &p), vec(1, 1, 1));
}

#[test]
fn image_limits_the_coordinates() {
    let bytes = vec![255, 0, 0, 0, 255, 0, 0, 0, 255, 255, 255, 255];
    let t = ImageTexture::new(Some(bytes), 2, 2);
    let p = vec(0, 0, 0);
    assert_eq!(t.value(whole(-5), whole(5), &p), vec(1, 0, 0));
    assert_eq!(t.value(whole(5), whole(5), &p), vec(0, 1, 0));
    assert_eq!(t.value(whole(0), whole(0), &p), vec(0, 0, 1));
    assert_eq!(t.value(whole(1), whole(0), &p), vec(1, 1, 1));
    assert_eq!(t.value(whole(1), whole(1), &p), vec(0, 1, 0));
    // The middle belongs to the far pixel.
    assert_eq!(t.value(num(1, 2), num(1, 2), &p), vec(1, 1, 1));
}

#[test]
fn image_scales_the_bytes() {
    let t = ImageTexture::new(Some(vec![51, 102, 204]), 1, 1);
    assert_eq!(
        t.value(num(1, 2), num(1, 2), &vec(0, 0, 0)),
        Vec3::new(num(51, 255), num(102, 255), num(204, 255))
    );
    assert_eq!(num(51, 255), num(1, 5));
}

#[test]
fn missing_image_is_cyan() {
    let p = vec(0, 0, 0);
    let cyan = vec(0, 1, 1);
    assert_eq!(ImageTexture::new(None, 0, 0).value(num(1, 2), num(1, 2), &p), cyan);
    assert_eq!(ImageTexture::new(None, 4, 4).value(num(1, 2), num(1, 2), &p), cyan);
    // Bytes that do not fit the sizes count as no picture.
    assert_eq!(ImageTexture::new(Some(vec![1, 2, 3]), 2, 2).value(num(1, 2), num(1, 2), &p), cyan);
    assert_eq!(ImageTexture::new(Some(vec![]), 0, 0).value(num(1, 2), num(1, 2), &p), cyan);
    assert_eq!(ImageTexture::new(Some(vec![1, 2, 3]), 1, 0).value(num(1, 2), num(1, 2), &p), cyan);
    assert_eq!(
        Texture::Image(ImageTexture::new(Some(vec![1, 2, 3]), usize::MAX, 2)).value(whole(0), whole(0), &p),
        cyan
    );
}

#[test]
fn noise_tables_must_be_permutations() {
    let ranvec: Vec<Vec3> = (0..POINT_COUNT).map(|_| vec(1, 0, 0)).collect();
    let perm: Vec<usize> = (0..POINT_COUNT).collect();
    assert!(Perlin::from_tables(ranvec.clone(), perm.clone(), perm.clone(), perm.clone()).is_some());
    let mut reversed = perm.clone();
    reversed.reverse();
    assert!(Perlin::from_tables(ranvec.clone(), reversed, perm.clone(), perm.clone()).is_some());
    let mut twice = perm.clone();
    twice[7] = 8;
    assert!(Perlin::from_tables(ranvec.clone(), perm.clone(), twice, perm.clone()).is_none());
    let mut large = perm.clone();
    large[0] = POINT_COUNT;
    assert!(Perlin::from_tables(ranvec.clone(), perm.clone(), perm.clone(), large).is_none());
    let short: Vec<usize> = (0..POINT_COUNT - 1).collect();
    assert!(Perlin::from_tables(ranvec.clone(), short, perm.clone(), perm.clone()).is_none());
    let few: Vec<Vec3> = (0..10).map(|_| vec(1, 0, 0)).collect();
    assert!(Perlin::from_tables(few, perm.clone(), perm.clone(), perm).is_none());
}

#[test]
fn random_permutations_are_permutations() {
    for _ in 0..5 {
        let p = Perlin::perlin_generate_perm();
        assert_eq!(p.len(), POINT_COUNT);
        let mut sorted = p.clone();
        sorted.sort();
        let identity: Vec<usize> = (0..POINT_COUNT).collect();
        assert_eq!(sorted, identity);
        assert_ne!(p, identity);
    }
}

#[test]
fn permute_leaves_the_tail_alone() {
    let mut p: Vec<usize> = (0..POINT_COUNT).collect();
    Perlin::permute(&mut p, 10);
    for i in 10..POINT_COUNT {
        assert_eq!(p[i], i);
    }
    let mut head: Vec<usize> = p[..10].to_vec();
    head.sort();
    assert_eq!(head, (0..10).collect::<Vec<usize>>());
    let mut q: Vec<usize> = (0..POINT_COUNT).collect();
    Perlin::permute(&mut q, 1);
    assert_eq!(q, (0..POINT_COUNT).collect::<Vec<usize>>());
}

#[test]
fn noise_vanishes_on_the_lattice() {
    let noise = identity_tables();
    assert_eq!(noise.noise(&vec(0, 0, 0)), whole(0));
    assert_eq!(noise.noise(&vec(3, -2, 7)), whole(0));
    assert_eq!(noise.turb(&vec(1, 2, 3), 7), whole(0));
}

#[test]
fn noise_interpolates_the_corner_directions() {
    let noise = identity_tables();
    // In the cell at the origin the eight corners have the table entries
    // 0, 1, 1, 0, 1, 0, 0, 1 (an exclusive or of the three coordinates), so
    // the directions x, y, y, x, y, x, x, y. At the centre every weight is
    // 1/8, and the offsets are +-1/2: the x directions at near x, the y
    // directions at near or far y.
    let centre = Vec3::new(num(1, 2), num(1, 2), num(1, 2));
    // Corners with direction x: (0,0,0) +1/2, (0,1,1) +1/2, (1,0,1) -1/2, (1,1,0) -1/2: sum 0.
    // Corners with direction y: (0,0,1) +1/2, (0,1,0) -1/2, (1,0,0) +1/2, (1,1,1) -1/2: sum 0.
    assert_eq!(noise.noise(&centre), whole(0));
    // Near the corner (0, 0, 0), along x: the corner's own term dominates.
    let p = Vec3::new(num(1, 4), whole(0), whole(0));
    // Corner (0,0,0): weight 3/4, direction x, offset 1/4: 3/16.
    // Corner (1,0,0): weight 1/4, direction y, offset y = 0: 0.
    assert_eq!(noise.noise(&p), num(3, 16));
}

#[test]
fn turbulence_adds_octaves() {
    let noise = identity_tables();
    let p = Vec3::new(num(1, 4), whole(0), whole(0));
    assert_eq!(noise.turb(&p, 0), whole(0));
    assert_eq!(noise.turb(&p, -3), whole(0));
    assert_eq!(noise.turb(&p, 1), num(3, 16));
    // The second octave is at (1/2, 0, 0): weight 1/2 for direction x at
    // offset 1/2 gives 1/4, and direction y gives nothing; half of it is 1/8.
    assert_eq!(noise.turb(&p, 2), num(3, 16).add(num(1, 8)));
    // The third octave is on the lattice.
    assert_eq!(noise.turb(&p, 3), num(5, 16));
}

#[test]
fn noise_texture_is_a_grey_between_black_and_white() {
    let t = NoiseTexture { noise: identity_tables(), scale: whole(4) };
    // On the lattice the turbulence is zero: half of one plus sin(4 z).
    let c = t.value(whole(0), whole(0), &vec(0, 0, 0));
    assert_eq!(c, Vec3::new(num(1, 2), num(1, 2), num(1, 2)));
    let c = t.value(whole(0), whole(0), &vec(0, 0, 1));
    let expected = 0.5 * (1.0 + 4f64.sin());
    assert!(close(c.x(), expected, 1e-6));
    assert_eq!(c.x(), c.y());
    assert_eq!(c.y(), c.z());
    let fresh = NoiseTexture::new(whole(4));
    assert_eq!(fresh.scale, whole(4));
    for k in 0..50 {
        let p = Vec3::new(num(k * 37, 10), num(k * 11, 7), num(-k * 5, 3));
        let c = Texture::Noise(NoiseTexture::new(whole(4))).value(whole(0), whole(0), &p);
        assert!(c.x().ge(whole(0)) && c.x().le(Scalar { raw: RAW_ONE + 8 }));
    }
}

#[test]
fn matte_surface_scatters_round_the_normal() {
    let m = Lambertian::new(Vec3::new(num(1, 2), num(1, 4), num(1, 8)));
    let rec = record(vec(0, 0, 1), true, Rc::new(Material::Lambertian(Lambertian::new(vec(0, 0, 0)))));
    let r_in = Ray::new(vec(0, 0, 5), vec(0, 0, -1), num(1, 3));
    let (attenuation, scattered) = m.scatter(&r_in, &rec, &sample(vec(0, 0, 0), whole(0))).unwrap();
    assert_eq!(attenuation, Vec3::new(num(1, 2), num(1, 4), num(1, 8)));
    assert_eq!(scattered.orig, rec.p);
    assert_eq!(scattered.tm, num(1, 3));
    // The centre of the sphere has no direction: the normal alone is left.
    assert_eq!(scattered.dir, vec(0, 0, 1));
    let (_, scattered) = m.scatter(&r_in, &rec, &sample(Vec3::new(num(1, 2), whole(0), whole(0)), whole(0))).unwrap();
    assert!(close(scattered.dir.x(), 1.0, 1e-8));
    assert_eq!(scattered.dir.z(), whole(1));
}

#[test]
fn matte_surface_falls_back_to_the_normal() {
    let m = Lambertian::new(vec(1, 1, 1));
    let rec = record(vec(0, 0, 1), true, Rc::new(Material::Lambertian(Lambertian::new(vec(0, 0, 0)))));
    let r_in = Ray::new(vec(0, 0, 5), vec(0, 0, -1), whole(0));
    // A unit vector opposite to the normal cancels it.
    let (_, scattered) = m.scatter(&r_in, &rec, &sample(Vec3::new(whole(0), whole(0), num(-1, 4)), whole(0))).unwrap();
    assert_eq!(scattered.dir, vec(0, 0, 1));
}

#[test]
fn matte_surface_with_a_texture() {
    let texture = solid(num(1, 8), num(1, 8), num(1, 8));
    let m = Lambertian::from(Rc::clone(&texture));
    assert!(Rc::ptr_eq(&m.albedo, &texture));
}

#[test]
fn polished_metal_mirrors() {
    let m = Metal::new(Vec3::new(num(7, 10), num(6, 10), num(5, 10)), whole(0));
    let rec = record(vec(0, 1, 0), true, Rc::new(Material::Lambertian(Lambertian::new(vec(0, 0, 0)))));
    let r_in = Ray::new(vec(0, 5, 0), vec(3, -4, 0), whole(0));
    let (attenuation, scattered) = m.scatter(&r_in, &rec, &sample(Vec3::new(num(1, 2), whole(0), whole(0)), whole(0))).unwrap();
    assert_eq!(attenuation, Vec3::new(num(7, 10), num(6, 10), num(5, 10)));
    assert!(close(scattered.dir.x(), 0.6, 1e-8));
    assert!(close(scattered.dir.y(), 0.8, 1e-8));
    assert_eq!(scattered.dir.z(), whole(0));
    assert_eq!(scattered.orig, rec.p);
}

#[test]
fn rough_metal_blurs_and_absorbs() {
    let m = Metal::new(vec(1, 1, 1), whole(1));
    let rec = record(vec(0, 1, 0), true, Rc::new(Material::Lambertian(Lambertian::new(vec(0, 0, 0)))));
    let r_in = Ray::new(vec(0, 5, 0), vec(3, -4, 0), whole(0));
    // The blur (0, -1, 0) pushes the mirrored ray (0.6, 0.8, 0) below the surface.
    assert!(m.scatter(&r_in, &rec, &sample(Vec3::new(whole(0), num(-1, 2), whole(0)), whole(0))).is_none());
    // The blur (1, 0, 0) leaves it above.
    let (_, scattered) = m.scatter(&r_in, &rec, &sample(Vec3::new(num(1, 2), whole(0), whole(0)), whole(0))).unwrap();
    assert!(close(scattered.dir.x(), 1.6, 1e-8));
    assert!(close(scattered.dir.y(), 0.8, 1e-8));
    // A ray along the surface is absorbed.
    let grazing = Ray::new(vec(0, 5, 0), vec(1, 0, 0), whole(0));
    assert!(Metal::new(vec(1, 1, 1), whole(0)).scatter(&grazing, &rec, &sample(vec(0, 0, 0), whole(0))).is_none());
}

#[test]
fn reflectance_head_on_is_the_base_reflectance() {
    // ((1 - 1.5) / (1 + 1.5))^2 = 0.04.
    let r0 = Dielectric::reflectance(whole(1), num(3, 2));
    assert!(close(r0, 0.04, 1e-8));
    let root = whole(1).sub(num(3, 2)).div(whole(1).add(num(3, 2)));
    assert_eq!(r0, root.mul(root));
    assert_eq!(Dielectric::reflectance(whole(1), whole(1)), whole(0));
}

#[test]
fn reflectance_at_a_grazing_angle_is_one() {
    assert_eq!(Dielectric::reflectance(whole(0), num(3, 2)), Scalar { raw: RAW_ONE });
    assert!(close(Dielectric::reflectance(num(1, 2), num(3, 2)), 0.04 + 0.96 / 32.0, 1e-8));
}

#[test]
fn reflectance_is_a_share() {
    let mut c = 0;
    while c <= 100 {
        for index in [num(1, 1_000_000), num(1, 2), whole(1), num(3, 2), whole(5), whole(1000), Scalar::infinity()] {
            let r = Dielectric::reflectance(num(c, 100), index);
            assert!(r.raw >= 0 && r.raw <= RAW_ONE, "cosine {} index {}", c, approx(index));
        }
        c += 1;
    }
}

#[test]
fn glass_reflects_or_refracts_by_the_threshold() {
    let glass = Dielectric::new(num(3, 2));
    let rec = record(vec(0, 0, 1), true, Rc::new(Material::Lambertian(Lambertian::new(vec(0, 0, 0)))));
    let r_in = Ray::new(vec(1, 2, 8), vec(0, 0, -1), num(1, 2));
    // Head on the reflectance is 0.04: below it the ray is reflected.
    let (attenuation, scattered) = glass.scatter(&r_in, &rec, &sample(vec(0, 0, 0), num(3, 100))).unwrap();
    assert_eq!(attenuation, vec(1, 1, 1));
    assert_eq!(scattered.dir, vec(0, 0, 1));
    assert_eq!(scattered.orig, rec.p);
    assert_eq!(scattered.tm, num(1, 2));
    // At or above it the ray goes on through.
    let (attenuation, scattered) = glass.scatter(&r_in, &rec, &sample(vec(0, 0, 0), num(5, 100))).unwrap();
    assert_eq!(attenuation, vec(1, 1, 1));
    assert!(close(scattered.dir.z(), -1.0, 1e-8));
    assert_eq!(scattered.dir.x(), whole(0));
}

#[test]
fn glass_reflects_all_light_beyond_the_critical_angle() {
    let glass = Dielectric::new(num(3, 2));
    // From inside, at 60 degrees to the normal: 1.5 sin(60) > 1.
    let rec = record(vec(0, 1, 0), false, Rc::new(Material::Lambertian(Lambertian::new(vec(0, 0, 0)))));
    let direction = Vec3::new(num(866_025, 1_000_000), num(-1, 2), whole(0));
    let r_in = Ray::new(vec(0, 0, 0), direction, whole(0));
    let (_, scattered) = glass.scatter(&r_in, &rec, &sample(vec(0, 0, 0), Scalar { raw: RAW_ONE - 1 })).unwrap();
    assert!(close(scattered.dir.x(), 0.866025, 1e-5));
    assert!(close(scattered.dir.y(), 0.5, 1e-5));
}

#[test]
fn dielectric_sphere_reflects_with_the_expected_frequency() {
    // A ray dead centre on a glass sphere of index 1.5: reflected with
    // probability 0.04, refracted otherwise.
    let glass = Rc::new(Material::Dielectric(Dielectric::new(num(3, 2))));
    let sphere = Sphere::new(vec(0, 0, 0), whole(1), Rc::clone(&glass));
    let r = Ray::new(vec(0, 0, 5), vec(0, 0, -1), whole(0));
    let rec = sphere.hit(&r, num(1, 1000), Scalar::infinity()).unwrap();
    assert_eq!(rec.t, whole(4));
    let trials = 20_000;
    let mut reflected = 0;
    let mut refracted = 0;
    for _ in 0..trials {
        let (attenuation, scattered) = rec.mat_ptr.scatter(&r, &rec).unwrap();
        assert_eq!(attenuation, vec(1, 1, 1));
        if scattered.dir.z().gt(whole(0)) {
            assert_eq!(scattered.dir, vec(0, 0, 1));
            reflected += 1;
        } else {
            assert!(close(scattered.dir.z(), -1.0, 1e-8));
            refracted += 1;
        }
    }
    assert_eq!(reflected + refracted, trials);
    // 0.04 of 20000 is 800, with a deviation of about 28.
    assert!(reflected > 600 && reflected < 1000, "reflected {}", reflected);
}

#[test]
fn light_gives_off_its_colour_and_scatters_nothing() {
    let light = DiffuseLight::from(vec(4, 4, 4));
    let rec = record(vec(0, 0, 1), true, Rc::new(Material::Lambertian(Lambertian::new(vec(0, 0, 0)))));
    let r_in = Ray::new(vec(0, 0, 5), vec(0, 0, -1), whole(0));
    assert!(light.scatter(&r_in, &rec, &sample(vec(0, 0, 0), whole(0))).is_none());
    assert_eq!(light.emitted(whole(0), whole(0), &vec(0, 0, 0)), vec(4, 4, 4));
    let texture = solid(whole(1), whole(2), whole(3));
    let textured = DiffuseLight::new(Rc::clone(&texture));
    assert!(Rc::ptr_eq(&textured.emit, &texture));
    let m = Material::DiffuseLight(textured);
    assert_eq!(m.emitted(whole(0), whole(0), &vec(0, 0, 0)), vec(1, 2, 3));
    assert!(m.scatter(&r_in, &rec).is_none());
}

#[test]
fn other_materials_give_off_no_light() {
    let p = vec(0, 0, 0);
    assert_eq!(Material::Lambertian(Lambertian::new(vec(1, 1, 1))).emitted(whole(0), whole(0), &p), vec(0, 0, 0));
    assert_eq!(Material::Metal(Metal::new(vec(1, 1, 1), whole(0))).emitted(whole(0), whole(0), &p), vec(0, 0, 0));
    assert_eq!(Material::Dielectric(Dielectric::new(whole(2))).emitted(whole(0), whole(0), &p), vec(0, 0, 0));
    assert_eq!(Material::Isotrophic(Isotrophic::from(vec(1, 1, 1))).emitted(whole(0), whole(0), &p), vec(0, 0, 0));
}

#[test]
fn fog_matter_scatters_in_the_sampled_direction() {
    let iso = Isotrophic::from(Vec3::new(num(1, 2), num(1, 2), num(1, 2)));
    let rec = record(vec(1, 0, 0), true, Rc::new(Material::Lambertian(Lambertian::new(vec(0, 0, 0)))));
    let r_in = Ray::new(vec(0, 0, 5), vec(0, 0, -1), num(1, 4));
    let direction = Vec3::new(num(1, 3), num(-1, 3), num(1, 5));
    let (attenuation, scattered) = iso.scatter(&r_in, &rec, &sample(direction, whole(0))).unwrap();
    assert_eq!(attenuation, Vec3::new(num(1, 2), num(1, 2), num(1, 2)));
    assert_eq!(scattered.dir, direction);
    assert_eq!(scattered.orig, rec.p);
    assert_eq!(scattered.tm, num(1, 4));
    let texture = solid(whole(1), whole(1), whole(1));
    assert!(Rc::ptr_eq(&Isotrophic::new(Rc::clone(&texture)).albedo, &texture));
}

#[test]
fn material_scatters_as_its_kind_does() {
    let rec = record(vec(0, 0, 1), true, Rc::new(Material::Lambertian(Lambertian::new(vec(0, 0, 0)))));
    let r_in = Ray::new(vec(0, 0, 5), vec(0, 0, -1), whole(0));
    let s = sample(Vec3::new(num(1, 2), whole(0), whole(0)), num(1, 2));
    let metal = Metal::new(vec(1, 1, 1), num(1, 2));
    assert_eq!(
        Material::Metal(Metal::new(vec(1, 1, 1), num(1, 2))).scatter_with(&r_in, &rec, &s),
        metal.scatter(&r_in, &rec, &s)
    );
    let glass = Dielectric::new(num(3, 2));
    assert_eq!(
        Material::Dielectric(Dielectric::new(num(3, 2))).scatter_with(&r_in, &rec, &s),
        glass.scatter(&r_in, &rec, &s)
    );
    let random = ScatterSample::random();
    assert!(inside_unit_sphere(&random.in_sphere));
    assert!(random.threshold.raw >= 0 && random.threshold.raw < RAW_ONE);
}

#[test]
fn camera_looks_down_the_negative_z_axis() {
    let cam = Camera::new(vec(0, 0, 0), vec(0, 0, -1), vec(0, 1, 0), whole(90), whole(2), whole(0), whole(1), whole(0), whole(1));
    assert_eq!(cam.origin, vec(0, 0, 0));
    assert_eq!(cam.w, vec(0, 0, 1));
    assert_eq!(cam.u, vec(1, 0, 0));
    assert_eq!(cam.v, vec(0, 1, 0));
    assert_eq!(cam.lens_radius, whole(0));
    // A field of view of 90 degrees: the picture is 2 high and 4 wide.
    assert!(close(cam.vertical.y(), 2.0, 1e-6));
    assert!(close(cam.horizontal.x(), 4.0, 1e-6));
    assert!(close(cam.lower_left_corner.x(), -2.0, 1e-6));
    assert!(close(cam.lower_left_corner.y(), -1.0, 1e-6));
    assert!(close(cam.lower_left_corner.z(), -1.0, 1e-6));
}

#[test]
fn pinhole_camera_sends_the_centre_ray_straight_ahead() {
    let cam = Camera::new(vec(0, 0, 0), vec(0, 0, -1), vec(0, 1, 0), whole(90), whole(2), whole(0), whole(1), whole(0), whole(1));
    let r = cam.get_ray_with(num(1, 2), num(1, 2), Vec3::new(num(1, 2), num(1, 2), whole(0)), num(1, 4));
    assert_eq!(r.orig, vec(0, 0, 0));
    assert!(close(r.dir.x(), 0.0, 1e-6));
    assert!(close(r.dir.y(), 0.0, 1e-6));
    assert!(close(r.dir.z(), -1.0, 1e-6));
    assert_eq!(r.tm, num(1, 4));
    let corner = cam.get_ray_with(whole(1), whole(1), vec(0, 0, 0), whole(0));
    assert!(close(corner.dir.x(), 2.0, 1e-6));
    assert!(close(corner.dir.y(), 1.0, 1e-6));
    assert!(close(corner.dir.z(), -1.0, 1e-6));
}

#[test]
fn lens_moves_the_origin_and_keeps_the_focus() {
    let cam = Camera::new(vec(0, 0, 0), vec(0, 0, -1), vec(0, 1, 0), whole(90), whole(1), whole(2), whole(10), whole(0), whole(1));
    assert_eq!(cam.lens_radius, whole(1));
    let disk = Vec3::new(num(1, 2), num(-1, 4), whole(0));
    let r = cam.get_ray_with(num(1, 2), num(1, 2), disk, whole(0));
    assert_eq!(r.orig, Vec3::new(num(1, 2), num(-1, 4), whole(0)));
    // The ray passes through the point in focus: the centre of the plane at 10.
    let focus = r.at(whole(1));
    assert!(close(focus.x(), 0.0, 1e-5));
    assert!(close(focus.y(), 0.0, 1e-5));
    assert!(close(focus.z(), -10.0, 1e-5));
}

#[test]
fn camera_draws_the_time_from_the_shutter() {
    let cam = Camera::new(vec(0, 0, 0), vec(0, 0, -1), vec(0, 1, 0), whole(90), whole(1), whole(0), whole(1), num(1, 4), num(3, 4));
    let mut distinct = std::collections::HashSet::new();
    for _ in 0..100 {
        let r = cam.get_ray(num(1, 2), num(1, 2));
        assert!(r.tm.ge(num(1, 4)) && r.tm.lt(num(3, 4)));
        assert_eq!(r.orig, vec(0, 0, 0));
        distinct.insert(r.tm.raw);
    }
    assert!(distinct.len() > 50);
    let still = Camera::new(vec(0, 0, 0), vec(0, 0, -1), vec(0, 1, 0), whole(90), whole(1), whole(0), whole(1), num(1, 2), num(1, 2));
    assert_eq!(still.get_ray(num(1, 2), num(1, 2)).tm, num(1, 2));
}

#[test]
fn channel_takes_mean_root_and_scale() {
    // One sample of full light: sqrt(1) limited to 0.999, times 255.99.
    assert_eq!(channel(whole(1), 1), 255);
    assert_eq!(channel(whole(0), 1), 0);
    // A quarter of the light is half as bright: 0.5 * 255.99 = 127.995.
    assert_eq!(channel(num(1, 4), 1), 127);
    // The sum of four samples of a quarter each.
    assert_eq!(channel(whole(1), 4), 127);
    assert_eq!(channel(whole(100), 100), 255);
    assert_eq!(channel(whole(9), 100), 76);
    assert_eq!(channel(whole(1000), 1), 255);
    assert_eq!(channel(whole(-3), 1), 0);
}

#[test]
fn channel_without_samples() {
    // The mean of no samples is infinite for any light, and nothing for none.
    assert_eq!(channel(whole(1), 0), 255);
    assert_eq!(channel(whole(0), 0), 0);
    assert_eq!(channel(whole(1), -1), 0);
}

#[test]
fn pixel_line_is_three_numbers() {
    let mut out = Vec::new();
    write_color(&mut out, &Vec3::new(whole(1), whole(0), num(1, 4)), 1);
    assert_eq!(String::from_utf8(out.clone()).unwrap(), "255 0 127\n");
    write_color(&mut out, &Vec3::new(whole(9), whole(1), whole(400)), 100);
    assert_eq!(String::from_utf8(out).unwrap(), "255 0 127\n76 25 255\n");
}

#[test]
fn no_bounces_left_means_no_light() {
    let world = Hittable::List(HittableList::default());
    let r = Ray::new(vec(0, 0, 0), vec(0, 0, -1), whole(0));
    let background = Vec3::new(num(7, 10), num(8, 10), whole(1));
    assert_eq!(ray_color(&r, &background, &world, 0), vec(0, 0, 0));
    assert_eq!(ray_color(&r, &background, &world, -4), vec(0, 0, 0));
    assert_eq!(ray_color_with(&r, &background, &world, 0, &vec![]), vec(0, 0, 0));
}

#[test]
fn a_ray_that_hits_nothing_sees_the_background() {
    let world = Hittable::List(HittableList::default());
    let r = Ray::new(vec(0, 0, 0), vec(0, 0, -1), whole(0));
    let background = Vec3::new(num(7, 10), num(8, 10), whole(1));
    assert_eq!(ray_color(&r, &background, &world, 50), background);
    let world = Hittable::Sphere(Sphere::new(vec(0, 5, 0), whole(1), Rc::new(Material::Metal(Metal::new(vec(1, 1, 1), whole(0))))));
    assert_eq!(ray_color(&r, &background, &world, 50), background);
}

#[test]
fn a_light_is_seen_as_it_is() {
    let light = Rc::new(Material::DiffuseLight(DiffuseLight::from(vec(4, 3, 2))));
    let world = Hittable::Sphere(Sphere::new(vec(0, 0, -5), whole(1), light));
    let r = Ray::new(vec(0, 0, 0), vec(0, 0, -1), whole(0));
    assert_eq!(ray_color(&r, &vec(0, 0, 0), &world, 50), vec(4, 3, 2));
    assert_eq!(ray_color(&r, &vec(1, 1, 1), &world, 1), vec(4, 3, 2));
}

#[test]
fn a_mirror_shows_the_background_filtered() {
    let mirror = Rc::new(Material::Metal(Metal::new(Vec3::new(num(1, 2), num(1, 4), whole(1)), whole(0))));
    let world = Hittable::Sphere(Sphere::new(vec(0, 0, -5), whole(1), mirror));
    let r = Ray::new(vec(0, 0, 0), vec(0, 0, -1), whole(0));
    let background = Vec3::new(num(1, 2), num(1, 2), num(1, 2));
    // One bounce off the mirror, then the background.
    assert_eq!(ray_color(&r, &background, &world, 50), Vec3::new(num(1, 4), num(1, 8), num(1, 2)));
    // With one bounce only, the reflected ray brings no light.
    assert_eq!(ray_color(&r, &background, &world, 1), vec(0, 0, 0));
    let samples = vec![bounce(whole(0), vec(0, 0, 0), whole(0)); 2];
    assert_eq!(ray_color_with(&r, &background, &world, 2, &samples), Vec3::new(num(1, 4), num(1, 8), num(1, 2)));
}

#[test]
fn given_samples_decide_the_path() {
    let glass = Rc::new(Material::Dielectric(Dielectric::new(num(3, 2))));
    let world = Hittable::Sphere(Sphere::new(vec(0, 0, -5), whole(1), glass));
    let r = Ray::new(vec(0, 0, 0), vec(0, 0, -1), whole(0));
    let background = Vec3::new(num(1, 2), num(1, 2), num(1, 2));
    // The bounce with two bounces left uses the second sample: a low
    // threshold reflects, and the reflected ray sees the background.
    let reflect = vec![bounce(whole(0), vec(0, 0, 0), whole(0)), bounce(whole(0), vec(0, 0, 0), num(1, 100))];
    assert_eq!(ray_color_with(&r, &background, &world, 2, &reflect), background);
    // A high threshold refracts into the sphere, where the last bounce ends
    // inside the glass: no light.
    let refract = vec![bounce(whole(0), vec(0, 0, 0), num(1, 2)), bounce(whole(0), vec(0, 0, 0), num(1, 2))];
    assert_eq!(ray_color_with(&r, &background, &world, 2, &refract), vec(0, 0, 0));
    let sampled = BounceSample::random();
    assert!(sampled.log_u.le(whole(0)));
}

#[test]
fn centre_ray_hits_the_small_sphere_in_front_of_the_floor() {
    // A floor sphere of radius 100 at y = -100.5 and a sphere of radius 0.5
    // at z = -1, seen by a pinhole camera at the origin that looks along -z.
    let floor = Rc::new(Material::Lambertian(Lambertian::new(Vec3::new(num(8, 10), num(8, 10), whole(0)))));
    let matte = Rc::new(Material::Lambertian(Lambertian::new(Vec3::new(num(7, 10), num(3, 10), num(3, 10)))));
    let mut list = HittableList::default();
    list.add(Rc::new(Hittable::Sphere(Sphere::new(Vec3::new(whole(0), num(-1005, 10), whole(-1)), whole(100), floor))));
    list.add(Rc::new(Hittable::Sphere(Sphere::new(vec(0, 0, -1), num(1, 2), Rc::clone(&matte)))));
    let world = Hittable::List(list);
    let cam = Camera::new(vec(0, 0, 0), vec(0, 0, -1), vec(0, 1, 0), whole(90), num(16, 9), whole(0), whole(1), whole(0), whole(1));
    let r = cam.get_ray_with(num(1, 2), num(1, 2), vec(0, 0, 0), whole(0));
    let rec = world.hit_with(&r, num(1, 1000), Scalar::infinity(), whole(0)).unwrap();
    assert!(close(rec.t, 0.5, 1e-6));
    assert!(Rc::ptr_eq(&rec.mat_ptr, &matte));
    assert!(rec.front_face);
    assert!(close(rec.normal.x(), 0.0, 1e-6));
    assert!(close(rec.normal.y(), 0.0, 1e-6));
    assert!(close(rec.normal.z(), 1.0, 1e-6));
    // The colour that stands for the normal: half of the normal plus one.
    let shade = rec.normal.add(vec(1, 1, 1)).scale(num(1, 2));
    assert!(close(shade.x(), 0.5, 1e-6));
    assert!(close(shade.y(), 0.5, 1e-6));
    assert!(close(shade.z(), 1.0, 1e-6));
    // A ray toward the bottom of the picture meets the floor.
    let down = cam.get_ray_with(num(1, 2), whole(0), vec(0, 0, 0), whole(0));
    let rec = world.hit_with(&down, num(1, 1000), Scalar::infinity(), whole(0)).unwrap();
    assert!(rec.p.y().lt(num(-1, 4)));
    assert!(close(unit_vector(&rec.normal).y(), 1.0, 1e-2));
}

#[test]
fn first_inside_takes_the_first_point_inside_the_sphere() {
    let outside = vec(1, 1, 1);
    let a = Vec3::new(num(1, 2), num(1, 2), num(1, 2));
    let b = Vec3::new(num(1, 4), whole(0), whole(0));
    assert_eq!(first_inside(&vec![outside, a, b]), a);
    assert_eq!(first_inside(&vec![b, a]), b);
    assert_eq!(first_inside(&vec![outside, outside, b]), b);
    // A point on the sphere is not inside it.
    assert_eq!(first_inside(&vec![outside, vec(1, 0, 0)]), vec(0, 0, 0));
    assert_eq!(first_inside(&vec![]), vec(0, 0, 0));
}

#[test]
fn given_picks_decide_the_shuffle() {
    let mut p = vec![0, 1, 2, 3];
    // The entry at 3 goes to 0, then the entry at 2 to 1, then the one at 1 to 0.
    Perlin::permute_with(&mut p, 4, &vec![0, 0, 1, 0]);
    assert_eq!(p, vec![2, 3, 1, 0]);
    // Every entry picks itself: nothing moves.
    let mut p = vec![7, 8, 9];
    Perlin::permute_with(&mut p, 3, &vec![0, 1, 2]);
    assert_eq!(p, vec![7, 8, 9]);
    // Only the first two entries are shuffled.
    let mut p = vec![7, 8, 9];
    Perlin::permute_with(&mut p, 2, &vec![0, 0]);
    assert_eq!(p, vec![8, 7, 9]);
    let mut p = vec![7, 8, 9];
    Perlin::permute_with(&mut p, 0, &vec![]);
    assert_eq!(p, vec![7, 8, 9]);
    let mut p = vec![7, 8, 9];
    Perlin::permute_with(&mut p, 1, &vec![0]);
    assert_eq!(p, vec![7, 8, 9]);
}

#[test]
fn picture_coordinate_is_a_share_of_the_size() {
    assert_eq!(picture_coordinate(0, whole(0), 401), whole(0));
    assert_eq!(picture_coordinate(200, whole(0), 401), num(1, 2));
    assert_eq!(picture_coordinate(100, num(1, 2), 401), num(201, 800));
    assert_eq!(picture_coordinate(400, whole(0), 401), whole(1));
    // A picture of one pixel has no size to share.
    assert_eq!(picture_coordinate(0, num(1, 2), 1), Scalar::infinity());
    assert_eq!(picture_coordinate(0, whole(0), 1), whole(0));
}

#[test]
fn pixel_is_the_sum_of_its_samples() {
    let mirror = Rc::new(Material::Metal(Metal::new(Vec3::new(num(1, 2), num(1, 4), whole(1)), whole(0))));
    let world = Hittable::Sphere(Sphere::new(vec(0, 0, -5), whole(1), mirror));
    let background = Vec3::new(num(1, 2), num(1, 2), num(1, 2));
    let cam = Camera::new(vec(0, 0, 0), vec(0, 0, -1), vec(0, 1, 0), whole(90), whole(1), whole(0), whole(1), whole(0), whole(1));
    let bounces = vec![bounce(whole(0), vec(0, 0, 0), whole(0)); 2];
    let sample = |ju: Scalar, jv: Scalar| PixelSample {
        jitter_u: ju,
        jitter_v: jv,
        disk: vec(0, 0, 0),
        time: whole(0),
        bounces: bounces.clone(),
    };
    // The pixel in the middle of a picture of 3 by 3: its ray goes straight
    // ahead, off the mirror and back to the background.
    let once = pixel_color_with(&cam, &world, &background, 1, 1, 3, 3, 2, &vec![sample(whole(0), whole(0))]);
    let r = cam.get_ray_with(num(1, 2), num(1, 2), vec(0, 0, 0), whole(0));
    assert_eq!(once, ray_color_with(&r, &background, &world, 2, &bounces));
    assert!(close(once.x(), 0.25, 1e-6));
    assert!(close(once.z(), 0.5, 1e-6));
    let thrice = pixel_color_with(
        &cam,
        &world,
        &background,
        1,
        1,
        3,
        3,
        2,
        &vec![sample(whole(0), whole(0)), sample(whole(0), whole(0)), sample(whole(0), whole(0))],
    );
    assert_eq!(thrice, once.add(once).add(once));
    // A sample in the corner pixel misses the sphere and sees the background.
    let corner = pixel_color_with(&cam, &world, &background, 0, 0, 3, 3, 2, &vec![sample(whole(0), whole(0))]);
    assert_eq!(corner, background);
    assert_eq!(pixel_color_with(&cam, &world, &background, 1, 1, 3, 3, 2, &vec![]), vec(0, 0, 0));
}

#[test]
fn pixel_draws_as_many_samples_as_asked() {
    let world = Hittable::List(HittableList::default());
    let background = Vec3::new(num(1, 2), num(1, 4), num(1, 8));
    let cam = Camera::new(vec(0, 0, 0), vec(0, 0, -1), vec(0, 1, 0), whole(90), whole(1), whole(0), whole(1), whole(0), whole(1));
    // Every sample sees the background.
    assert_eq!(pixel_color(&cam, &world, &background, 3, 4, 10, 10, 8, 5), Vec3::new(whole(4), whole(2), whole(1)));
    assert_eq!(pixel_color(&cam, &world, &background, 3, 4, 10, 10, 0, 5), vec(0, 0, 0));
    assert_eq!(pixel_color(&cam, &world, &background, 3, 4, 10, 10, -2, 5), vec(0, 0, 0));
    assert_eq!(pixel_color(&cam, &world, &background, 3, 4, 10, 10, 8, 0), vec(0, 0, 0));
}

#[test]
fn any_table_can_be_shuffled() {
    // Not a permutation, and shorter than a noise table.
    let mut p = vec![5, 5, 7, 9, 9, 9];
    Perlin::permute(&mut p, 4);
    assert_eq!(p.len(), 6);
    assert_eq!(p[4], 9);
    assert_eq!(p[5], 9);
    let mut head = p[..4].to_vec();
    head.sort();
    assert_eq!(head, vec![5, 5, 7, 9]);
    let mut q: Vec<usize> = vec![];
    Perlin::permute(&mut q, 0);
    assert!(q.is_empty());
}
