use std::rc::Rc;

use raytracer::aabb::{surrounding_box, AABB};
use raytracer::aarect::{XYRect, XZRect, YZRect};
use raytracer::hittable::{HitRecord, Hittable, RotateY, Translate};
use raytracer::hittable_list::HittableList;
use raytracer::material::{Lambertian, Material};
use raytracer::movingsphere::MovingSphere;
use raytracer::ray::Ray;
use raytracer::scalar::{Scalar, RAW_ONE};
use raytracer::sphere::{first_root_in_range, sphere_roots, Sphere};
use raytracer::vec3::{cross, dot, reflect, refract, unit_vector, Vec3};

fn num(n: i64, d: i64) -> Scalar {
    Scalar::from_ratio(n, d)
}

fn whole(n: i32) -> Scalar {
    Scalar::from_int(n)
}

fn vec(x: i32, y: i32, z: i32) -> Vec3 {
    Vec3::new(whole(x), whole(y), whole(z))
}

fn approx(x: Scalar) -> f64 {
    x.raw as f64 / RAW_ONE as f64
}

fn close(x: Scalar, expected: f64, tolerance: f64) -> bool {
    (approx(x) - expected).abs() <= tolerance
}

fn grey() -> Rc<Material> {
    Rc::new(Material::Lambertian(Lambertian::new(Vec3::new(num(1, 2), num(1, 2), num(1, 2)))))
}

fn ray(origin: Vec3, direction: Vec3) -> Ray {
    Ray::new(origin, direction, Scalar::zero())
}

fn unit_sphere() -> Sphere {
    Sphere::new(vec(0, 0, 0), Scalar::one(), grey())
}

#[test]
fn vector_components_and_index() {
    let v = vec(1, 2, 3);
    assert_eq!(v.x(), whole(1));
    assert_eq!(v.y(), whole(2));
    assert_eq!(v.z(), whole(3));
    assert_eq!(v.index(0), whole(1));
    assert_eq!(v.index(1), whole(2));
    assert_eq!(v.index(2), whole(3));
}

#[test]
fn vector_sum_difference_and_products() {
    let a = vec(1, 2, 3);
    let b = vec(4, -5, 6);
    assert_eq!(a.add(b), vec(5, -3, 9));
    assert_eq!(a.sub(b), vec(-3, 7, -3));
    assert_eq!(a.mul(b), vec(4, -10, 18));
    assert_eq!(a.neg(), vec(-1, -2, -3));
    assert_eq!(a.scale(whole(2)), vec(2, 4, 6));
    assert_eq!(vec(2, 4, 6).div(whole(2)), vec(1, 2, 3));
    assert_eq!(dot(&a, &b), whole(12));
    assert_eq!(cross(&vec(1, 0, 0), &vec(0, 1, 0)), vec(0, 0, 1));
    assert_eq!(cross(&a, &b), vec(27, 6, -13));
}

#[test]
fn vector_assignments() {
    let mut v = vec(1, 2, 3);
    v.add_assign(vec(1, 1, 1));
    assert_eq!(v, vec(2, 3, 4));
    v.mul_assign(whole(2));
    assert_eq!(v, vec(4, 6, 8));
    v.div_assign(whole(4));
    assert_eq!(v, Vec3::new(whole(1), num(3, 2), whole(2)));
}

#[test]
fn vector_length() {
    assert_eq!(vec(3, 4, 0).length_squared(), whole(25));
    assert_eq!(vec(3, 4, 0).length(), whole(5));
    assert_eq!(vec(0, 0, 0).length(), whole(0));
}

#[test]
fn unit_vector_has_length_one() {
    let u = unit_vector(&vec(3, 4, 0));
    assert!(close(u.x(), 0.6, 1e-8));
    assert!(close(u.y(), 0.8, 1e-8));
    assert_eq!(u.z(), whole(0));
    assert!(close(u.length(), 1.0, 1e-8));
}

#[test]
fn unit_vector_of_nothing_is_nothing() {
    assert_eq!(unit_vector(&vec(0, 0, 0)), vec(0, 0, 0));
}

#[test]
fn near_zero_has_a_sharp_border() {
    let below = Scalar { raw: num(1, 100_000_000).raw - 1 };
    let at = num(1, 100_000_000);
    assert!(Vec3::new(below, below.neg(), Scalar::zero()).near_zero());
    assert!(!Vec3::new(at, Scalar::zero(), Scalar::zero()).near_zero());
    assert!(!Vec3::new(Scalar::zero(), Scalar::zero(), at.neg()).near_zero());
}

#[test]
fn reflection_mirrors_about_the_normal() {
    assert_eq!(reflect(&vec(1, -1, 0), &vec(0, 1, 0)), vec(1, 1, 0));
    assert_eq!(reflect(&vec(0, 0, -1), &vec(0, 0, 1)), vec(0, 0, 1));
}

#[test]
fn refraction_head_on_goes_straight() {
    let out = refract(&vec(0, 0, -1), &vec(0, 0, 1), num(2, 3));
    assert_eq!(out.x(), whole(0));
    assert_eq!(out.y(), whole(0));
    assert!(close(out.z(), -1.0, 1e-8));
}

#[test]
fn refraction_bends_toward_the_normal() {
    // 45 degrees into glass: sin of the new angle is sin(45) / 1.5.
    let incoming = unit_vector(&vec(1, -1, 0));
    let out = refract(&incoming, &vec(0, 1, 0), num(2, 3));
    let expected_sin = (0.5f64).sqrt() / 1.5;
    assert!(close(out.x(), expected_sin, 1e-7));
    assert!(close(out.y(), -(1.0 - expected_sin * expected_sin).sqrt(), 1e-7));
}

#[test]
fn ray_reaches_points_along_its_direction() {
    let r = Ray::new(vec(1, 2, 3), vec(0, 0, -2), num(1, 2));
    assert_eq!(r.origin(), vec(1, 2, 3));
    assert_eq!(r.direction(), vec(0, 0, -2));
    assert_eq!(r.time(), num(1, 2));
    assert_eq!(r.at(whole(0)), vec(1, 2, 3));
    assert_eq!(r.at(num(3, 2)), vec(1, 2, 0));
    assert_eq!(r.at(whole(-1)), vec(1, 2, 5));
}

#[test]
fn box_corners_are_put_in_order() {
    let b = AABB::new(vec(1, 5, -1), vec(0, 2, 3));
    assert_eq!(b.min(), vec(0, 2, -1));
    assert_eq!(b.max(), vec(1, 5, 3));
    let kept = AABB::new(vec(0, 0, 0), vec(1, 1, 1));
    assert_eq!(kept.min(), vec(0, 0, 0));
    assert_eq!(kept.max(), vec(1, 1, 1));
}

#[test]
fn box_hit_does_not_depend_on_the_order_of_the_corners() {
    let a = vec(-1, -2, -3);
    let b = vec(4, 5, 6);
    let one = AABB::new(a, b);
    let other = AABB::new(b, a);
    assert_eq!(one, other);
    let rays = [
        ray(vec(0, 0, 10), vec(0, 0, -1)),
        ray(vec(10, 10, 10), vec(-1, -1, -1)),
        ray(vec(10, 10, 10), vec(1, 0, 0)),
        ray(vec(0, 0, 0), vec(0, 1, 0)),
        ray(vec(5, 0, 0), vec(0, 1, 0)),
    ];
    for r in rays.iter() {
        assert_eq!(
            one.hit(r, Scalar::zero(), Scalar::infinity()),
            other.hit(r, Scalar::zero(), Scalar::infinity())
        );
    }
}

#[test]
fn box_is_hit_through_and_missed_beside() {
    let b = AABB::new(vec(-1, -1, -1), vec(1, 1, 1));
    assert!(b.hit(&ray(vec(0, 0, 5), vec(0, 0, -1)), Scalar::zero(), Scalar::infinity()));
    assert!(!b.hit(&ray(vec(3, 0, 5), vec(0, 0, -1)), Scalar::zero(), Scalar::infinity()));
    assert!(!b.hit(&ray(vec(0, 0, 5), vec(0, 0, 1)), Scalar::zero(), Scalar::infinity()));
    assert!(b.hit(&ray(vec(5, 5, 5), vec(-1, -1, -1)), Scalar::zero(), Scalar::infinity()));
}

#[test]
fn box_hit_respects_the_interval() {
    let b = AABB::new(vec(-1, -1, -1), vec(1, 1, 1));
    let r = ray(vec(0, 0, 5), vec(0, 0, -1));
    // The ray is inside the box for parameters from 4 to 6.
    assert!(b.hit(&r, whole(0), whole(5)));
    assert!(b.hit(&r, whole(5), whole(10)));
    assert!(!b.hit(&r, whole(0), whole(4)));
    assert!(!b.hit(&r, whole(6), whole(10)));
    assert!(!b.hit(&r, whole(0), whole(3)));
    assert!(!b.hit(&r, whole(5), whole(5)));
}

#[test]
fn zero_direction_component_is_no_constraint_inside_the_slab() {
    let b = AABB::new(vec(-1, -1, -1), vec(1, 1, 1));
    // Parallel to the x and y slabs and between their planes.
    assert!(b.hit(&ray(vec(0, 0, 5), vec(0, 0, -1)), Scalar::zero(), Scalar::infinity()));
    assert!(b.hit(
        &Ray::new(Vec3::new(num(1, 2), num(-1, 2), whole(5)), vec(0, 0, -1), Scalar::zero()),
        Scalar::zero(),
        Scalar::infinity()
    ));
}

#[test]
fn zero_direction_component_misses_outside_the_slab() {
    let b = AABB::new(vec(-1, -1, -1), vec(1, 1, 1));
    assert!(!b.hit(&ray(vec(2, 0, 5), vec(0, 0, -1)), Scalar::zero(), Scalar::infinity()));
    assert!(!b.hit(&ray(vec(-2, 0, 5), vec(0, 0, -1)), Scalar::zero(), Scalar::infinity()));
    assert!(!b.hit(&ray(vec(0, 3, 5), vec(0, 0, -1)), Scalar::zero(), Scalar::infinity()));
    assert!(!b.hit(&ray(vec(0, 0, 5), vec(0, 0, 0)), Scalar::zero(), Scalar::infinity()));
}

#[test]
fn surrounding_box_holds_both() {
    let a = AABB::new(vec(0, 0, 0), vec(1, 1, 1));
    let b = AABB::new(vec(-2, 1, 0), vec(0, 3, 5));
    let s = surrounding_box(a, b);
    assert_eq!(s.min(), vec(-2, 0, 0));
    assert_eq!(s.max(), vec(1, 3, 5));
    assert_eq!(surrounding_box(a, a), a);
}

#[test]
fn sphere_has_two_roots_for_a_ray_through_it() {
    let r = ray(vec(0, 0, 5), vec(0, 0, -1));
    let roots = sphere_roots(vec(0, 0, 0), whole(1), &r);
    assert_eq!(roots, Some((whole(4), whole(6))));
}

#[test]
fn sphere_has_no_roots_for_a_ray_beside_it() {
    let r = ray(vec(2, 0, 5), vec(0, 0, -1));
    assert_eq!(sphere_roots(vec(0, 0, 0), whole(1), &r), None);
}

#[test]
fn sphere_tangent_ray_has_one_double_root() {
    let r = ray(vec(1, 0, 5), vec(0, 0, -1));
    assert_eq!(sphere_roots(vec(0, 0, 0), whole(1), &r), Some((whole(5), whole(5))));
}

#[test]
fn first_root_in_range_prefers_the_smaller() {
    let roots = Some((whole(4), whole(6)));
    assert_eq!(first_root_in_range(roots, whole(0), whole(10)), Some(whole(4)));
    assert_eq!(first_root_in_range(roots, whole(4), whole(4)), Some(whole(4)));
    assert_eq!(first_root_in_range(roots, whole(5), whole(10)), Some(whole(6)));
    assert_eq!(first_root_in_range(roots, whole(6), whole(6)), Some(whole(6)));
    assert_eq!(first_root_in_range(roots, whole(0), whole(3)), None);
    assert_eq!(first_root_in_range(roots, whole(7), whole(10)), None);
    assert_eq!(first_root_in_range(roots, num(9, 2), num(11, 2)), None);
    assert_eq!(first_root_in_range(None, whole(0), whole(10)), None);
}

#[test]
fn sphere_is_hit_at_the_smaller_root_from_outside() {
    let s = unit_sphere();
    let r = ray(vec(0, 0, 5), vec(0, 0, -1));
    let rec = s.hit(&r, Scalar::zero(), Scalar::infinity()).unwrap();
    assert_eq!(rec.t, whole(4));
    assert_eq!(rec.p, vec(0, 0, 1));
    assert_eq!(rec.normal, vec(0, 0, 1));
    assert!(rec.front_face);
}

#[test]
fn sphere_is_hit_at_the_larger_root_from_inside() {
    let s = unit_sphere();
    let r = ray(vec(0, 0, 0), vec(0, 0, -1));
    let rec = s.hit(&r, num(1, 1000), Scalar::infinity()).unwrap();
    assert_eq!(rec.t, whole(1));
    assert_eq!(rec.p, vec(0, 0, -1));
    // The outward normal points along the ray, so it is turned round.
    assert_eq!(rec.normal, vec(0, 0, 1));
    assert!(!rec.front_face);
}

#[test]
fn sphere_is_not_hit_outside_the_interval() {
    let s = unit_sphere();
    let r = ray(vec(0, 0, 5), vec(0, 0, -1));
    assert!(s.hit(&r, whole(0), whole(3)).is_none());
    assert!(s.hit(&r, whole(7), whole(100)).is_none());
    assert!(s.hit(&r, num(9, 2), num(11, 2)).is_none());
    let beside = ray(vec(2, 0, 5), vec(0, 0, -1));
    assert!(s.hit(&beside, Scalar::neg_infinity(), Scalar::infinity()).is_none());
}

#[test]
fn sphere_record_shares_the_material() {
    let material = grey();
    let s = Sphere::new(vec(0, 0, 0), whole(1), Rc::clone(&material));
    let rec = s.hit(&ray(vec(0, 0, 5), vec(0, 0, -1)), Scalar::zero(), Scalar::infinity()).unwrap();
    assert!(Rc::ptr_eq(&rec.mat_ptr, &material));
    assert_eq!(Rc::strong_count(&material), 3);
}

#[test]
fn sphere_surface_coordinates() {
    // The point (1, 0, 0) lies half way round and half way up.
    let (u, v) = Sphere::get_sphere_uv(&vec(1, 0, 0));
    assert!(close(u, 0.5, 1e-7));
    assert!(close(v, 0.5, 1e-7));
    // The north pole is at the top.
    let (_, v) = Sphere::get_sphere_uv(&vec(0, 1, 0));
    assert!(close(v, 1.0, 1e-7));
    // The south pole is at the bottom.
    let (_, v) = Sphere::get_sphere_uv(&vec(0, -1, 0));
    assert!(close(v, 0.0, 1e-7));
    // The point (0, 0, -1) lies three quarters round, (0, 0, 1) one quarter.
    let (u, _) = Sphere::get_sphere_uv(&vec(0, 0, -1));
    assert!(close(u, 0.75, 1e-7));
    let (u, _) = Sphere::get_sphere_uv(&vec(0, 0, 1));
    assert!(close(u, 0.25, 1e-7));
    // The point (-1, 0, 0) is where the angle starts.
    let (u, _) = Sphere::get_sphere_uv(&vec(-1, 0, 0));
    assert!(close(u, 0.0, 1e-7));
}

#[test]
fn sphere_box_reaches_a_radius_each_way() {
    let s = Sphere::new(vec(1, 2, 3), whole(2), grey());
    let b = s.bounding_box(Scalar::zero(), Scalar::one()).unwrap();
    assert_eq!(b.min(), vec(-1, 0, 1));
    assert_eq!(b.max(), vec(3, 4, 5));
}

#[test]
fn moving_sphere_is_where_its_time_says() {
    let s = MovingSphere::new(vec(0, 0, 0), vec(0, 4, 0), whole(0), whole(1), whole(1), grey());
    assert_eq!(s.center(whole(0)), vec(0, 0, 0));
    assert_eq!(s.center(num(1, 2)), vec(0, 2, 0));
    assert_eq!(s.center(whole(1)), vec(0, 4, 0));
    let early = Ray::new(vec(0, 0, 5), vec(0, 0, -1), whole(0));
    let late = Ray::new(vec(0, 0, 5), vec(0, 0, -1), whole(1));
    let rec = s.hit(&early, Scalar::zero(), Scalar::infinity()).unwrap();
    assert_eq!(rec.t, whole(4));
    // The point (0, 0, 1) lies a quarter round and half way up.
    assert!(close(rec.u, 0.25, 1e-7));
    assert!(close(rec.v, 0.5, 1e-7));
    assert!(s.hit(&late, Scalar::zero(), Scalar::infinity()).is_none());
    let high = Ray::new(vec(0, 4, 5), vec(0, 0, -1), whole(1));
    assert_eq!(s.hit(&high, Scalar::zero(), Scalar::infinity()).unwrap().t, whole(4));
}

#[test]
fn moving_sphere_box_spans_both_ends() {
    let s = MovingSphere::new(vec(0, 0, 0), vec(0, 4, 0), whole(0), whole(1), whole(1), grey());
    let b = s.bounding_box(whole(0), whole(1)).unwrap();
    assert_eq!(b.min(), vec(-1, -1, -1));
    assert_eq!(b.max(), vec(1, 5, 1));
}

#[test]
fn rectangle_across_z_is_hit_inside_its_extent() {
    let rect = XYRect::new(whole(0), whole(4), whole(0), whole(2), whole(-3), grey());
    let r = ray(vec(1, 1, 0), vec(0, 0, -1));
    let rec = rect.hit(&r, Scalar::zero(), Scalar::infinity()).unwrap();
    assert_eq!(rec.t, whole(3));
    assert_eq!(rec.p, vec(1, 1, -3));
    assert_eq!(rec.u, num(1, 4));
    assert_eq!(rec.v, num(1, 2));
    assert_eq!(rec.normal, vec(0, 0, 1));
    assert!(rec.front_face);
}

#[test]
fn rectangle_is_missed_outside_its_extent_and_interval() {
    let rect = XYRect::new(whole(0), whole(4), whole(0), whole(2), whole(-3), grey());
    assert!(rect.hit(&ray(vec(5, 1, 0), vec(0, 0, -1)), Scalar::zero(), Scalar::infinity()).is_none());
    assert!(rect.hit(&ray(vec(1, 3, 0), vec(0, 0, -1)), Scalar::zero(), Scalar::infinity()).is_none());
    assert!(rect.hit(&ray(vec(1, 1, 0), vec(0, 0, -1)), Scalar::zero(), whole(2)).is_none());
    assert!(rect.hit(&ray(vec(1, 1, 0), vec(0, 0, -1)), whole(4), whole(9)).is_none());
    assert!(rect.hit(&ray(vec(1, 1, 0), vec(0, 0, 1)), Scalar::zero(), Scalar::infinity()).is_none());
}

#[test]
fn rectangle_borders_belong_to_it() {
    let rect = XYRect::new(whole(0), whole(4), whole(0), whole(2), whole(-3), grey());
    assert!(rect.hit(&ray(vec(0, 0, 0), vec(0, 0, -1)), Scalar::zero(), Scalar::infinity()).is_some());
    assert!(rect.hit(&ray(vec(4, 2, 0), vec(0, 0, -1)), Scalar::zero(), Scalar::infinity()).is_some());
    assert!(rect.hit(&ray(vec(1, 1, 0), vec(0, 0, -1)), whole(3), whole(3)).is_some());
}

#[test]
fn rectangle_seen_from_behind_turns_its_normal() {
    let rect = XYRect::new(whole(0), whole(4), whole(0), whole(2), whole(-3), grey());
    let rec = rect.hit(&ray(vec(1, 1, -5), vec(0, 0, 1)), Scalar::zero(), Scalar::infinity()).unwrap();
    assert_eq!(rec.t, whole(2));
    assert_eq!(rec.normal, vec(0, 0, -1));
    assert!(!rec.front_face);
}

#[test]
fn rectangles_across_y_and_x() {
    let floor = XZRect::new(whole(0), whole(4), whole(0), whole(2), whole(1), grey());
    let rec = floor.hit(&ray(vec(3, 5, 1), vec(0, -1, 0)), Scalar::zero(), Scalar::infinity()).unwrap();
    assert_eq!(rec.t, whole(4));
    assert_eq!(rec.normal, vec(0, 1, 0));
    assert_eq!(rec.u, num(3, 4));
    assert_eq!(rec.v, num(1, 2));
    let wall = YZRect::new(whole(0), whole(4), whole(0), whole(2), whole(1), grey());
    let rec = wall.hit(&ray(vec(5, 1, 1), vec(-2, 0, 0)), Scalar::zero(), Scalar::infinity()).unwrap();
    assert_eq!(rec.t, whole(2));
    assert_eq!(rec.normal, vec(1, 0, 0));
    assert_eq!(rec.u, num(1, 4));
    assert_eq!(rec.v, num(1, 2));
}

#[test]
fn rectangle_box_is_padded_across_its_plane() {
    let pad = num(1, 10_000);
    let rect = XYRect::new(whole(0), whole(4), whole(0), whole(2), whole(-3), grey());
    let b = rect.bounding_box(whole(0), whole(1)).unwrap();
    assert_eq!(b.min(), Vec3::new(whole(0), whole(0), whole(-3).sub(pad)));
    assert_eq!(b.max(), Vec3::new(whole(4), whole(2), whole(-3).add(pad)));
    let floor = XZRect::new(whole(0), whole(4), whole(0), whole(2), whole(1), grey());
    let b = floor.bounding_box(whole(0), whole(1)).unwrap();
    assert_eq!(b.min(), Vec3::new(whole(0), whole(1).sub(pad), whole(0)));
    assert_eq!(b.max(), Vec3::new(whole(4), whole(1).add(pad), whole(2)));
    let wall = YZRect::new(whole(0), whole(4), whole(0), whole(2), whole(1), grey());
    let b = wall.bounding_box(whole(0), whole(1)).unwrap();
    assert_eq!(b.min(), Vec3::new(whole(1).sub(pad), whole(0), whole(0)));
    assert_eq!(b.max(), Vec3::new(whole(1).add(pad), whole(4), whole(2)));
    assert!(b.min().x().lt(b.max().x()));
}

#[test]
fn solid_box_has_six_sides_and_its_own_corners_as_box() {
    let b = raytracer::_box::Box::new(&vec(0, 0, 0), &vec(1, 2, 3), grey());
    assert_eq!(b.sides.objects.len(), 6);
    let bounds = b.bounding_box(whole(0), whole(1)).unwrap();
    assert_eq!(bounds.min(), vec(0, 0, 0));
    assert_eq!(bounds.max(), vec(1, 2, 3));
    match &*b.sides.objects[0] {
        Hittable::XYRect(r) => assert_eq!(r.k, whole(3)),
        _ => panic!("the first side lies across z"),
    }
    match &*b.sides.objects[5] {
        Hittable::YZRect(r) => assert_eq!(r.k, whole(0)),
        _ => panic!("the last side lies across x"),
    }
}

#[test]
fn solid_box_is_hit_on_its_nearest_side() {
    let b = raytracer::_box::Box::new(&vec(0, 0, 0), &vec(1, 2, 3), grey());
    let r = Ray::new(Vec3::new(num(1, 2), whole(1), whole(10)), vec(0, 0, -1), whole(0));
    let rec = b.hit(&r, num(1, 1000), Scalar::infinity(), Scalar::zero()).unwrap();
    assert_eq!(rec.t, whole(7));
    let rec = b.hit(&r, num(15, 2), Scalar::infinity(), Scalar::zero()).unwrap();
    assert_eq!(rec.t, whole(10));
    let beside = Ray::new(Vec3::new(whole(5), whole(1), whole(10)), vec(0, 0, -1), whole(0));
    assert!(b.hit(&beside, num(1, 1000), Scalar::infinity(), Scalar::zero()).is_none());
}

#[test]
fn face_normal_is_turned_against_the_ray() {
    let mut rec = HitRecord {
        p: vec(0, 0, 0),
        normal: vec(0, 0, 0),
        mat_ptr: grey(),
        t: whole(1),
        u: whole(0),
        v: whole(0),
        front_face: false,
    };
    rec.set_face_normal(&ray(vec(0, 0, 5), vec(0, 0, -1)), &vec(0, 0, 1));
    assert!(rec.front_face);
    assert_eq!(rec.normal, vec(0, 0, 1));
    rec.set_face_normal(&ray(vec(0, 0, 5), vec(0, 0, 1)), &vec(0, 0, 1));
    assert!(!rec.front_face);
    assert_eq!(rec.normal, vec(0, 0, -1));
    // A ray along the surface counts as coming from behind.
    rec.set_face_normal(&ray(vec(0, 0, 5), vec(1, 0, 0)), &vec(0, 0, 1));
    assert!(!rec.front_face);
}

#[test]
fn translated_object_is_hit_at_the_same_parameter() {
    let inner = Rc::new(Hittable::Sphere(unit_sphere()));
    let moved = Translate::new(Rc::clone(&inner), vec(10, 0, 0));
    let r = ray(vec(10, 0, 5), vec(0, 0, -1));
    let rec = moved.hit(&r, Scalar::zero(), Scalar::infinity(), Scalar::zero()).unwrap();
    let object_ray = ray(vec(0, 0, 5), vec(0, 0, -1));
    let own = inner.hit_with(&object_ray, Scalar::zero(), Scalar::infinity(), Scalar::zero()).unwrap();
    assert_eq!(rec.t, own.t);
    assert_eq!(rec.t, whole(4));
    assert_eq!(rec.p, vec(10, 0, 1));
    assert_eq!(rec.normal, vec(0, 0, 1));
    assert!(moved.hit(&object_ray, Scalar::zero(), Scalar::infinity(), Scalar::zero()).is_none());
}

#[test]
fn translated_box_is_moved() {
    let inner = Rc::new(Hittable::Sphere(unit_sphere()));
    let moved = Translate::new(inner, vec(10, 0, 0));
    let b = moved.bounding_box(whole(0), whole(1)).unwrap();
    assert_eq!(b.min(), vec(9, -1, -1));
    assert_eq!(b.max(), vec(11, 1, 1));
    let empty = Translate::new(Rc::new(Hittable::List(HittableList::default())), vec(1, 1, 1));
    assert!(empty.bounding_box(whole(0), whole(1)).is_none());
}

#[test]
fn rotated_object_is_hit_at_the_same_parameter() {
    // A rectangle across x at x = 2, turned by 90 degrees about y, lies
    // across z at z = -2.
    let wall = Rc::new(Hittable::YZRect(YZRect::new(whole(-1), whole(1), whole(-1), whole(1), whole(2), grey())));
    let turned = RotateY::new(Rc::clone(&wall), whole(90));
    assert!(close(turned.sin_theta, 1.0, 1e-7));
    assert!(close(turned.cos_theta, 0.0, 1e-7));
    let r = ray(vec(0, 0, -5), vec(0, 0, 1));
    let rec = turned.hit(&r, Scalar::zero(), Scalar::infinity(), Scalar::zero()).unwrap();
    assert!(close(rec.t, 3.0, 1e-6));
    assert!(close(rec.p.z(), -2.0, 1e-6));
    assert!(close(rec.p.x(), 0.0, 1e-6));
    assert!(close(rec.normal.z(), -1.0, 1e-6));
    assert!(rec.front_face);
    // The object itself, on the ray as it sees it, is hit at that parameter.
    let object_ray = Ray::new(
        Vec3::new(
            turned.cos_theta.mul(r.orig.x()).sub(turned.sin_theta.mul(r.orig.z())),
            r.orig.y(),
            turned.sin_theta.mul(r.orig.x()).add(turned.cos_theta.mul(r.orig.z())),
        ),
        Vec3::new(
            turned.cos_theta.mul(r.dir.x()).sub(turned.sin_theta.mul(r.dir.z())),
            r.dir.y(),
            turned.sin_theta.mul(r.dir.x()).add(turned.cos_theta.mul(r.dir.z())),
        ),
        r.tm,
    );
    let own = wall.hit_with(&object_ray, Scalar::zero(), Scalar::infinity(), Scalar::zero()).unwrap();
    assert_eq!(rec.t, own.t);
}

#[test]
fn rotated_box_is_the_box_round_the_turned_corners() {
    let inner = Rc::new(Hittable::Box(raytracer::_box::Box::new(&vec(0, 0, 0), &vec(2, 1, 4), grey())));
    let turned = RotateY::new(inner, whole(90));
    let b = turned.bounding_box(whole(0), whole(1)).unwrap();
    // (x, z) goes to (z, -x): x from 0 to 4, z from -2 to 0.
    assert!(close(b.min().x(), 0.0, 1e-6));
    assert!(close(b.max().x(), 4.0, 1e-6));
    assert!(close(b.min().z(), -2.0, 1e-6));
    assert!(close(b.max().z(), 0.0, 1e-6));
    assert_eq!(b.min().y(), whole(0));
    assert_eq!(b.max().y(), whole(1));
    let empty = RotateY::new(Rc::new(Hittable::List(HittableList::default())), whole(30));
    assert!(empty.bounding_box(whole(0), whole(1)).is_none());
}

#[test]
fn rotation_by_nothing_changes_nothing() {
    let inner = Rc::new(Hittable::Sphere(Sphere::new(vec(3, 0, 0), whole(1), grey())));
    let turned = RotateY::new(Rc::clone(&inner), whole(0));
    let r = ray(vec(3, 0, 5), vec(0, 0, -1));
    let rec = turned.hit(&r, Scalar::zero(), Scalar::infinity(), Scalar::zero()).unwrap();
    assert_eq!(rec.t, whole(4));
    assert_eq!(rec.p, vec(3, 0, 1));
}

#[test]
fn ray_along_a_face_and_close_to_it_is_not_cut_short() {
    let b = AABB::new(vec(-1, -1, -1), vec(1, 1, 1));
    // Parallel to the x slab, one raw step inside its far plane.
    let inside = Scalar { raw: RAW_ONE - 1 };
    let r = Ray::new(Vec3::new(inside, whole(0), whole(1000)), vec(0, 0, -1), Scalar::zero());
    assert!(b.hit(&r, num(1, 1000), Scalar::infinity()));
    assert!(b.hit(&r, whole(999), whole(1001)));
    let outside = Scalar { raw: RAW_ONE + 1 };
    let r = Ray::new(Vec3::new(outside, whole(0), whole(1000)), vec(0, 0, -1), Scalar::zero());
    assert!(!b.hit(&r, num(1, 1000), Scalar::infinity()));
}

#[test]
fn default_values_are_zero() {
    assert_eq!(Vec3::default(), vec(0, 0, 0));
    assert_eq!(Ray::default(), Ray::new(vec(0, 0, 0), vec(0, 0, 0), whole(0)));
    assert_eq!(AABB::default(), AABB::new(vec(0, 0, 0), vec(0, 0, 0)));
    assert_eq!(HittableList::default().objects.len(), 0);
    assert_eq!(
        raytracer::texture::SolidColor::default(),
        raytracer::texture::SolidColor::new(whole(0), whole(0), whole(0))
    );
}

#[test]
fn translated_sphere_records_the_side_that_was_hit() {
    let inner = Rc::new(Hittable::Sphere(unit_sphere()));
    let moved = Translate::new(inner, vec(5, 0, 0));
    let r = ray(vec(5, 0, -3), vec(0, 0, 1));
    // From outside: the near side.
    let rec = moved.hit(&r, num(1, 1000), Scalar::infinity(), Scalar::zero()).unwrap();
    assert_eq!(rec.t, whole(2));
    assert_eq!(rec.p, vec(5, 0, -1));
    assert_eq!(rec.normal, vec(0, 0, -1));
    assert!(rec.front_face);
    // Past the near side: the far side, hit from inside.
    let rec = moved.hit(&r, num(5, 2), Scalar::infinity(), Scalar::zero()).unwrap();
    assert_eq!(rec.t, whole(4));
    assert_eq!(rec.p, vec(5, 0, 1));
    assert_eq!(rec.normal, vec(0, 0, -1));
    assert!(!rec.front_face);
}

#[test]
fn turned_sphere_records_the_side_that_was_hit() {
    let inner = Rc::new(Hittable::Sphere(unit_sphere()));
    let turned = RotateY::new(inner, whole(30));
    let r = ray(vec(0, 0, -3), vec(0, 0, 1));
    let rec = turned.hit(&r, num(1, 1000), Scalar::infinity(), Scalar::zero()).unwrap();
    assert!(close(rec.t, 2.0, 1e-6));
    assert!(close(rec.normal.z(), -1.0, 1e-6));
    assert!(rec.front_face);
    let rec = turned.hit(&r, num(5, 2), Scalar::infinity(), Scalar::zero()).unwrap();
    assert!(close(rec.t, 4.0, 1e-6));
    assert!(close(rec.p.z(), 1.0, 1e-6));
    assert!(close(rec.normal.z(), -1.0, 1e-6));
    assert!(!rec.front_face);
}

#[test]
fn moved_and_turned_object_keeps_the_side_of_the_object() {
    // The sides of a box all face along their axis, so that a ray along +z
    // meets both the near and the far side from behind.
    let solid = Rc::new(Hittable::Box(raytracer::_box::Box::new(&vec(-1, -1, -1), &vec(1, 1, 1), grey())));
    let own_ray = ray(vec(0, 0, -10), vec(0, 0, 1));
    let moved = Translate::new(
        Rc::new(Hittable::RotateY(RotateY::new(Rc::clone(&solid), whole(0)))),
        vec(0, 0, 10),
    );
    let r = ray(vec(0, 0, 0), vec(0, 0, 1));
    for t_min in [num(1, 1000), whole(10)] {
        let own = solid.hit_with(&own_ray, t_min, Scalar::infinity(), Scalar::zero()).unwrap();
        let rec = moved.hit(&r, t_min, Scalar::infinity(), Scalar::zero()).unwrap();
        assert_eq!(rec.t, own.t);
        assert_eq!(rec.normal, own.normal);
        assert_eq!(rec.front_face, own.front_face);
        assert_eq!(rec.normal, vec(0, 0, -1));
        assert!(!rec.front_face);
    }
    let rec = moved.hit(&r, num(1, 1000), Scalar::infinity(), Scalar::zero()).unwrap();
    assert_eq!(rec.t, whole(9));
    let rec = moved.hit(&r, whole(10), Scalar::infinity(), Scalar::zero()).unwrap();
    assert_eq!(rec.t, whole(11));
    // Seen from the other end, both sides are met from the front.
    let back = ray(vec(0, 0, 20), vec(0, 0, -1));
    let rec = moved.hit(&back, num(1, 1000), Scalar::infinity(), Scalar::zero()).unwrap();
    assert_eq!(rec.t, whole(9));
    assert_eq!(rec.normal, vec(0, 0, 1));
    assert!(rec.front_face);
}

#[test]
fn outward_normal_undoes_the_turning() {
    let s = unit_sphere();
    let r = ray(vec(0, 0, 0), vec(0, 0, -1));
    let rec = s.hit(&r, num(1, 1000), Scalar::infinity()).unwrap();
    assert!(!rec.front_face);
    assert_eq!(rec.normal, vec(0, 0, 1));
    assert_eq!(rec.outward_normal(), vec(0, 0, -1));
    let r = ray(vec(0, 0, 5), vec(0, 0, -1));
    let rec = s.hit(&r, num(1, 1000), Scalar::infinity()).unwrap();
    assert!(rec.front_face);
    assert_eq!(rec.outward_normal(), vec(0, 0, 1));
}
