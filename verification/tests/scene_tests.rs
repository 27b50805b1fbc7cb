use raytrace::integrator::{query_window, ray_color, Outcome, Step};
use raytrace::objects::{Dielectric, HitRecord, HittableList, Lambertian, Material, Metal};
use raytrace::scalar::Scalar;
use raytrace::sphere::{Roots, Sphere};
use raytrace::vec3::Vec3;

fn s(x: f64) -> Scalar {
    Scalar::from_bits(x.to_bits())
}

fn f(x: Scalar) -> f64 {
    f64::from_bits(x.to_bits())
}

fn v(x: f64, y: f64, z: f64) -> Vec3 {
    Vec3::new(s(x), s(y), s(z))
}

fn triple(a: Vec3) -> [f64; 3] {
    [f(a.x()), f(a.y()), f(a.z())]
}

fn dot(a: [f64; 3], b: [f64; 3]) -> f64 {
    a[0] * b[0] + a[1] * b[1] + a[2] * b[2]
}

fn sub(a: [f64; 3], b: [f64; 3]) -> [f64; 3] {
    [a[0] - b[0], a[1] - b[1], a[2] - b[2]]
}

fn along(origin: [f64; 3], direction: [f64; 3], t: f64) -> [f64; 3] {
    [origin[0] + t * direction[0], origin[1] + t * direction[1], origin[2] + t * direction[2]]
}

fn length(a: [f64; 3]) -> f64 {
    dot(a, a).sqrt()
}

fn roots_of(center: [f64; 3], radius: f64, origin: [f64; 3], direction: [f64; 3]) -> Roots {
    let oc = sub(origin, center);
    let a = dot(direction, direction);
    let half_b = dot(oc, direction);
    let c = dot(oc, oc) - radius * radius;
    let discriminant = half_b * half_b - a * c;
    let sqrtd = discriminant.sqrt();
    Roots::new(s(discriminant), s((-half_b - sqrtd) / a), s((-half_b + sqrtd) / a))
}

fn record_of(center: [f64; 3], radius: f64, origin: [f64; 3], direction: [f64; 3], t: f64) -> HitRecord {
    let p = along(origin, direction, t);
    let d = sub(p, center);
    let outward = [d[0] / radius, d[1] / radius, d[2] / radius];
    let material = Material::Lambertian(Lambertian::new(v(0.5, 0.5, 0.5)));
    let mut rec = HitRecord::new(v(p[0], p[1], p[2]), v(0.0, 0.0, 0.0), s(t), false, material);
    rec.set_face_normal(s(dot(direction, outward)), v(outward[0], outward[1], outward[2]));
    rec
}

fn matte() -> Material {
    Material::Lambertian(Lambertian::new(v(0.5, 0.5, 0.5)))
}

fn some_record() -> HitRecord {
    HitRecord::new(v(1.0, 2.0, 3.0), v(0.0, 1.0, 0.0), s(4.0), true, matte())
}

fn window() -> (Scalar, Scalar) {
    (s(0.001), s(f64::INFINITY))
}

#[test]
fn near_root_is_preferred() {
    let r = Roots::new(s(1.0), s(2.0), s(5.0));
    assert_eq!(r.hit(window()).map(f), Some(2.0));
}

#[test]
fn far_root_when_near_is_behind() {
    let r = Roots::new(s(1.0), s(-2.0), s(5.0));
    assert_eq!(r.hit(window()).map(f), Some(5.0));
}

#[test]
fn no_root_in_window() {
    let r = Roots::new(s(1.0), s(-5.0), s(-2.0));
    assert!(r.hit(window()).is_none());
    let r = Roots::new(s(1.0), s(7.0), s(9.0));
    assert!(r.hit((s(0.001), s(6.0))).is_none());
}

#[test]
fn negative_discriminant_misses() {
    let r = Roots::new(s(-0.25), s(2.0), s(5.0));
    assert!(r.hit(window()).is_none());
}

#[test]
fn zero_discriminant_grazes() {
    let r = Roots::new(s(0.0), s(3.0), s(3.0));
    assert_eq!(r.hit(window()).map(f), Some(3.0));
}

#[test]
fn window_is_open_below_and_closed_above() {
    let r = Roots::new(s(1.0), s(2.0), s(5.0));
    assert_eq!(r.hit((s(2.0), s(5.0))).map(f), Some(5.0));
    assert_eq!(r.hit((s(1.0), s(2.0))).map(f), Some(2.0));
    assert!(r.hit((s(2.0), s(4.0))).is_none());
}

#[test]
fn nan_roots_never_hit() {
    let r = Roots::new(s(f64::NAN), s(f64::NAN), s(f64::NAN));
    assert!(r.hit(window()).is_none());
    let r = Roots::new(s(1.0), s(f64::NAN), s(5.0));
    assert_eq!(r.hit(window()).map(f), Some(5.0));
}

#[test]
fn sphere_round_trip() {
    let cases = [
        ([0.0, 0.0, -1.0], 0.5, [0.0, 0.0, 0.0]),
        ([3.0, -2.0, 7.0], 2.25, [-10.0, 4.0, 1.0]),
        ([100.0, 50.0, -25.0], 10.0, [0.5, 0.25, 0.125]),
        ([0.0, -1000.0, 0.0], 1000.0, [13.0, 2.0, 3.0]),
    ];
    for (center, radius, origin) in cases {
        let direction = sub(center, origin);
        let roots = roots_of(center, radius, origin, direction);
        let t = f(roots.hit(window()).unwrap());
        assert_eq!(t, f(roots.near));
        let p = along(origin, direction, t);
        let distance = length(sub(p, center));
        assert!((distance - radius).abs() <= 1e-9 * radius, "{} vs {}", distance, radius);
    }
}

#[test]
fn stored_normal_faces_the_ray() {
    let center = [0.0, 0.0, -1.0];
    let origins = [[0.0, 0.0, 0.0], [0.0, 0.0, -1.0], [0.2, 0.1, -0.9], [2.0, 1.0, 3.0]];
    let directions = [[0.0, 0.0, -1.0], [0.1, 0.2, -1.0], [0.0, 1.0, 0.0], [-2.0, -1.0, -4.0]];
    for origin in origins {
        for direction in directions {
            let roots = roots_of(center, 0.5, origin, direction);
            if let Some(t) = roots.hit(window()) {
                let rec = record_of(center, 0.5, origin, direction, f(t));
                assert!(dot(direction, triple(rec.normal)) <= 0.0);
            }
        }
    }
}

#[test]
fn front_face_keeps_the_outward_normal() {
    let mut rec = some_record();
    rec.set_face_normal(s(-0.5), v(0.0, 0.0, 1.0));
    assert!(rec.front_facing);
    assert_eq!(triple(rec.normal), [0.0, 0.0, 1.0]);
    assert_eq!(triple(rec.point), [1.0, 2.0, 3.0]);
    assert_eq!(f(rec.t), 4.0);
}

#[test]
fn back_face_flips_the_outward_normal() {
    let mut rec = some_record();
    rec.set_face_normal(s(0.5), v(0.0, 0.0, 1.0));
    assert!(!rec.front_facing);
    assert_eq!(triple(rec.normal), [0.0, 0.0, -1.0]);
    rec.set_face_normal(s(0.0), v(0.0, 1.0, 0.0));
    assert!(!rec.front_facing);
    assert_eq!(triple(rec.normal), [0.0, -1.0, 0.0]);
}

#[test]
fn hit_record_new_keeps_its_fields() {
    let rec = HitRecord::new(v(1.0, 2.0, 3.0), v(0.0, 1.0, 0.0), s(4.0), true, matte());
    assert_eq!(triple(rec.point), [1.0, 2.0, 3.0]);
    assert_eq!(triple(rec.normal), [0.0, 1.0, 0.0]);
    assert_eq!(f(rec.t), 4.0);
    assert!(rec.front_facing);
    assert!(matches!(rec.material, Material::Lambertian(_)));
}

#[test]
fn negative_radius_turns_the_normal_inward() {
    let center = [1.0, 2.0, -3.0];
    let radius = -0.75;
    let origin = [1.1, 2.0, -3.2];
    let direction = [0.3, -0.2, 1.0];
    let roots = roots_of(center, radius, origin, direction);
    let t = f(roots.hit(window()).unwrap());
    assert_eq!(t, f(roots.far));
    let rec = record_of(center, radius, origin, direction, t);
    let to_center = sub(center, triple(rec.point));
    assert!(dot(triple(rec.normal), to_center) > 0.0);
    assert!(dot(direction, triple(rec.normal)) <= 0.0);
    assert!(rec.front_facing);
    let solid = record_of(center, -radius, origin, direction, t);
    assert!(!solid.front_facing);
    assert!(dot(triple(solid.normal), to_center) > 0.0);
}

#[test]
fn sphere_new_keeps_its_fields() {
    let sp = Sphere::new(v(0.0, 0.0, -1.0), s(0.5), matte());
    assert_eq!(triple(sp.center), [0.0, 0.0, -1.0]);
    assert_eq!(f(sp.radius), 0.5);
    assert!(matches!(sp.material, Material::Lambertian(_)));
}

#[test]
fn list_add_len_clear() {
    let mut world = HittableList::new();
    assert_eq!(world.len(), 0);
    world.add(Sphere::new(v(0.0, 0.0, -1.0), s(0.5), matte()));
    world.add(Sphere::new(v(0.0, 0.0, -4.0), s(1.0), matte()));
    assert_eq!(world.len(), 2);
    assert_eq!(f(world.objects[1].radius), 1.0);
    world.clear();
    assert_eq!(world.len(), 0);
}

#[test]
fn empty_scene_hits_nothing() {
    let world = HittableList::new();
    assert!(world.hit(&Vec::new(), window()).is_none());
}

#[test]
fn nearest_of_two_spheres() {
    let origin = [0.0, 0.0, 0.0];
    let direction = [0.0, 0.0, -1.0];
    let a = ([0.0, 0.0, -3.0], 1.0);
    let b = ([0.0, 0.0, -6.0], 1.0);
    for order in [[a, b], [b, a]] {
        let mut world = HittableList::new();
        let mut roots = Vec::new();
        for (center, radius) in order {
            world.add(Sphere::new(v(center[0], center[1], center[2]), s(radius), matte()));
            roots.push(roots_of(center, radius, origin, direction));
        }
        let (index, t) = world.hit(&roots, window()).unwrap();
        assert_eq!(f(t), 2.0);
        assert_eq!(triple(world.objects[index].center), [0.0, 0.0, -3.0]);
    }
}

#[test]
fn nearest_hit_respects_the_window() {
    let mut world = HittableList::new();
    world.add(Sphere::new(v(0.0, 0.0, -3.0), s(1.0), matte()));
    world.add(Sphere::new(v(0.0, 0.0, -6.0), s(1.0), matte()));
    let roots = vec![Roots::new(s(1.0), s(2.0), s(4.0)), Roots::new(s(1.0), s(5.0), s(7.0))];
    let (index, t) = world.hit(&roots, (s(4.5), s(100.0))).unwrap();
    assert_eq!((index, f(t)), (1, 5.0));
    let (index, t) = world.hit(&roots, (s(2.0), s(4.5))).unwrap();
    assert_eq!((index, f(t)), (0, 4.0));
    assert!(world.hit(&roots, (s(7.0), s(100.0))).is_none());
    assert!(world.hit(&roots, (s(0.0), s(1.5))).is_none());
}

#[test]
fn equally_near_hit_goes_to_the_later_sphere() {
    let mut world = HittableList::new();
    world.add(Sphere::new(v(0.0, 0.0, -3.0), s(1.0), matte()));
    world.add(Sphere::new(v(0.0, 0.0, -3.0), s(1.0), matte()));
    world.add(Sphere::new(v(0.0, 0.0, -9.0), s(1.0), matte()));
    let roots = vec![
        Roots::new(s(1.0), s(2.0), s(4.0)),
        Roots::new(s(1.0), s(2.0), s(4.0)),
        Roots::new(s(1.0), s(8.0), s(10.0)),
    ];
    let (index, t) = world.hit(&roots, window()).unwrap();
    assert_eq!((index, f(t)), (1, 2.0));
}

#[test]
fn missed_spheres_are_skipped() {
    let mut world = HittableList::new();
    world.add(Sphere::new(v(5.0, 0.0, -3.0), s(1.0), matte()));
    world.add(Sphere::new(v(0.0, 0.0, -3.0), s(1.0), matte()));
    let origin = [0.0, 0.0, 0.0];
    let direction = [0.0, 0.0, -1.0];
    let roots = vec![
        roots_of([5.0, 0.0, -3.0], 1.0, origin, direction),
        roots_of([0.0, 0.0, -3.0], 1.0, origin, direction),
    ];
    let (index, t) = world.hit(&roots, window()).unwrap();
    assert_eq!((index, f(t)), (1, 2.0));
}

#[test]
fn lambertian_scatters_along_the_candidate() {
    let m = Lambertian::new(v(0.8, 0.3, 0.1));
    let rec = some_record();
    let (attenuation, ray) = m.scatter(&rec, v(0.5, 1.5, -0.25));
    assert_eq!(triple(attenuation), [0.8, 0.3, 0.1]);
    assert_eq!(triple(*ray.get_origin()), [1.0, 2.0, 3.0]);
    assert_eq!(triple(*ray.get_direction()), [0.5, 1.5, -0.25]);
}

#[test]
fn lambertian_falls_back_to_the_normal() {
    let m = Lambertian::new(v(0.8, 0.3, 0.1));
    let rec = some_record();
    let (attenuation, ray) = m.scatter(&rec, v(1e-9, -1e-10, 0.0));
    assert_eq!(triple(attenuation), [0.8, 0.3, 0.1]);
    assert_eq!(triple(*ray.get_direction()), [0.0, 1.0, 0.0]);
}

#[test]
fn metal_fuzz_is_held_between_zero_and_one() {
    assert_eq!(f(Metal::new(v(0.7, 0.6, 0.5), s(0.3)).fuzz), 0.3);
    assert_eq!(f(Metal::new(v(0.7, 0.6, 0.5), s(1.5)).fuzz), 1.0);
    assert_eq!(f(Metal::new(v(0.7, 0.6, 0.5), s(-0.5)).fuzz), 0.0);
    assert_eq!(f(Metal::new(v(0.7, 0.6, 0.5), s(0.0)).fuzz), 0.0);
    assert_eq!(f(Metal::new(v(0.7, 0.6, 0.5), s(1.0)).fuzz), 1.0);
    assert_eq!(triple(Metal::new(v(0.7, 0.6, 0.5), s(1.0)).albedo), [0.7, 0.6, 0.5]);
}

#[test]
fn metal_absorbs_rays_bent_into_the_surface() {
    let m = Metal::new(v(0.7, 0.6, 0.5), s(1.0));
    let rec = some_record();
    let normal = triple(rec.normal);
    let incoming = [1.0, -0.01, 0.0];
    let len = length(incoming);
    let unit = [incoming[0] / len, incoming[1] / len, incoming[2] / len];
    let d = dot(unit, normal);
    let reflected = sub(unit, [2.0 * d * normal[0], 2.0 * d * normal[1], 2.0 * d * normal[2]]);
    let fuzz = [0.0, -0.5, 0.0];
    let direction = [reflected[0] + fuzz[0], reflected[1] + fuzz[1], reflected[2] + fuzz[2]];
    let facing = dot(direction, normal);
    assert!(facing <= 0.0);
    assert!(m.scatter(&rec, v(direction[0], direction[1], direction[2]), s(facing)).is_none());
    assert!(m.scatter(&rec, v(1.0, 0.0, 0.0), s(0.0)).is_none());
    assert!(m.scatter(&rec, v(1.0, 0.0, 0.0), s(f64::NAN)).is_none());
}

#[test]
fn metal_reflects_rays_leaving_the_surface() {
    let m = Metal::new(v(0.7, 0.6, 0.5), s(0.0));
    let rec = some_record();
    let (attenuation, ray) = m.scatter(&rec, v(1.0, 0.5, 0.0), s(0.5)).unwrap();
    assert_eq!(triple(attenuation), [0.7, 0.6, 0.5]);
    assert_eq!(triple(*ray.get_origin()), [1.0, 2.0, 3.0]);
    assert_eq!(triple(*ray.get_direction()), [1.0, 0.5, 0.0]);
}

#[test]
fn dielectric_attenuation_is_white_on_every_branch() {
    let m = Dielectric::new(s(1.5));
    let rec = some_record();
    let reflected = v(1.0, 1.0, 0.0);
    let refracted = v(1.0, -1.0, 0.0);
    for bend in [0.2, 0.99, 1.0, 1.01, 3.0] {
        for reflectance in [0.0, 0.04, 0.5, 1.0] {
            for draw in [0.0, 0.03, 0.5, 0.999] {
                let (attenuation, ray) = m.scatter_on(&rec, reflected, refracted, s(bend), s(reflectance), s(draw));
                assert_eq!(triple(attenuation), [1.0, 1.0, 1.0]);
                assert_eq!(triple(*ray.get_origin()), [1.0, 2.0, 3.0]);
                let expect = if bend > 1.0 || reflectance > draw { reflected } else { refracted };
                assert_eq!(triple(*ray.get_direction()), triple(expect));
            }
        }
    }
}

#[test]
fn dielectric_total_internal_reflection() {
    let m = Dielectric::new(s(1.5));
    let rec = some_record();
    assert!(Dielectric::cannot_refract(s(1.2)));
    assert!(!Dielectric::cannot_refract(s(1.0)));
    assert!(!Dielectric::cannot_refract(s(0.4)));
    let (_, ray) = m.scatter_on(&rec, v(1.0, 1.0, 0.0), v(1.0, -1.0, 0.0), s(1.2), s(0.0), s(0.5));
    assert_eq!(triple(*ray.get_direction()), [1.0, 1.0, 0.0]);
}

#[test]
fn dielectric_reflects_below_the_reflectance() {
    let m = Dielectric::new(s(1.5));
    let rec = some_record();
    let (_, ray) = m.scatter_on(&rec, v(1.0, 1.0, 0.0), v(1.0, -1.0, 0.0), s(0.5), s(0.04), s(0.03));
    assert_eq!(triple(*ray.get_direction()), [1.0, 1.0, 0.0]);
    let (_, ray) = m.scatter_on(&rec, v(1.0, 1.0, 0.0), v(1.0, -1.0, 0.0), s(0.5), s(0.04), s(0.04));
    assert_eq!(triple(*ray.get_direction()), [1.0, -1.0, 0.0]);
}

#[test]
fn dielectric_scatter_draws_between_the_two_directions() {
    let m = Dielectric::new(s(1.5));
    let rec = some_record();
    let reflected = v(1.0, 1.0, 0.0);
    let refracted = v(1.0, -1.0, 0.0);
    let mut seen_reflected = 0;
    let mut seen_refracted = 0;
    for _ in 0..2000 {
        let (attenuation, ray) = m.scatter(&rec, reflected, refracted, s(0.5), s(0.5));
        assert_eq!(triple(attenuation), [1.0, 1.0, 1.0]);
        assert_eq!(triple(*ray.get_origin()), [1.0, 2.0, 3.0]);
        let d = triple(*ray.get_direction());
        if d == triple(reflected) {
            seen_reflected += 1;
        } else {
            assert_eq!(d, triple(refracted));
            seen_refracted += 1;
        }
    }
    assert!(seen_reflected > 0);
    assert!(seen_refracted > 0);
}

#[test]
fn dielectric_scatter_is_decided_at_the_extremes() {
    let m = Dielectric::new(s(1.5));
    let rec = some_record();
    let reflected = v(1.0, 1.0, 0.0);
    let refracted = v(1.0, -1.0, 0.0);
    for _ in 0..200 {
        let (_, ray) = m.scatter(&rec, reflected, refracted, s(1.5), s(0.0));
        assert_eq!(triple(*ray.get_direction()), triple(reflected));
        let (_, ray) = m.scatter(&rec, reflected, refracted, s(0.5), s(1.0));
        assert_eq!(triple(*ray.get_direction()), triple(reflected));
        let (_, ray) = m.scatter(&rec, reflected, refracted, s(0.5), s(0.0));
        assert_eq!(triple(*ray.get_direction()), triple(refracted));
        let (_, ray) = m.scatter(&rec, reflected, refracted, s(1.0), s(-0.25));
        assert_eq!(triple(*ray.get_direction()), triple(refracted));
    }
}

#[test]
fn dielectric_refraction_ratio_by_side() {
    let m = Dielectric::new(s(1.5));
    assert_eq!(f(m.ir), 1.5);
    assert_eq!(f(m.refraction_ratio(true, s(1.0 / 1.5))), 1.0 / 1.5);
    assert_eq!(f(m.refraction_ratio(false, s(1.0 / 1.5))), 1.5);
}

#[test]
fn spent_budget_is_black() {
    for depth in [0, -1, -50, i16::MIN] {
        for outcome in [Outcome::Miss, Outcome::Absorbed, Outcome::Scattered] {
            assert_eq!(ray_color(depth, outcome), Step::Black);
        }
        assert!(query_window(depth).is_none());
    }
}

#[test]
fn a_miss_ends_in_the_background() {
    assert_eq!(ray_color(50, Outcome::Miss), Step::Background);
    assert_eq!(ray_color(1, Outcome::Miss), Step::Background);
}

#[test]
fn absorption_ends_in_black() {
    assert_eq!(ray_color(50, Outcome::Absorbed), Step::Black);
}

#[test]
fn scattering_spends_one_bounce() {
    assert_eq!(ray_color(50, Outcome::Scattered), Step::Bounce { depth: 49 });
    assert_eq!(ray_color(1, Outcome::Scattered), Step::Bounce { depth: 0 });
    assert_eq!(ray_color(i16::MAX, Outcome::Scattered), Step::Bounce { depth: i16::MAX - 1 });
}

#[test]
fn a_path_of_scatterings_ends_with_its_budget() {
    let mut depth: i16 = 5;
    let mut bounces = 0;
    loop {
        match ray_color(depth, Outcome::Scattered) {
            Step::Bounce { depth: rest } => {
                depth = rest;
                bounces += 1;
            }
            end => {
                assert_eq!(end, Step::Black);
                break;
            }
        }
    }
    assert_eq!(bounces, 5);
}

#[test]
fn query_window_starts_past_the_surface() {
    let (t_min, t_max) = query_window(50).unwrap();
    assert_eq!(f(t_min), 0.001);
    assert_eq!(f(t_max), f64::INFINITY);
}

#[test]
fn end_to_end_single_sphere() {
    let center = [0.0, 0.0, -1.0];
    let radius = 0.5;
    let mut world = HittableList::new();
    world.add(Sphere::new(v(0.0, 0.0, -1.0), s(radius), matte()));
    let origin = [0.0, 0.0, 0.0];
    let lower_left = [-1.0, -1.0, -1.0];
    let shade = |su: f64, sv: f64| -> [f64; 3] {
        let direction = [lower_left[0] + 2.0 * su, lower_left[1] + 2.0 * sv, lower_left[2]];
        let window = query_window(1).unwrap();
        let roots = vec![roots_of(center, radius, origin, direction)];
        match world.hit(&roots, window) {
            Some((_, t)) => {
                let rec = record_of(center, radius, origin, direction, f(t));
                let n = triple(rec.normal);
                [0.5 * (n[0] + 1.0), 0.5 * (n[1] + 1.0), 0.5 * (n[2] + 1.0)]
            }
            None => {
                assert_eq!(ray_color(1, Outcome::Miss), Step::Background);
                let len = length(direction);
                let t = 0.5 * (direction[1] / len + 1.0);
                [(1.0 - t) + t * 0.5, (1.0 - t) + t * 0.7, (1.0 - t) + t * 1.0]
            }
        }
    };
    let center_pixel = shade(0.5, 0.5);
    assert_eq!(center_pixel, [0.5, 0.5, 1.0]);
    let off_center = shade(0.6, 0.5);
    assert!(off_center[0] > 0.5 && off_center[2] < 1.0 && off_center[2] > 0.5);
    for su in [0.0, 0.25, 0.5, 0.75, 1.0] {
        let top = shade(su, 1.0);
        let bottom = shade(su, 0.0);
        assert!(top[0] < bottom[0]);
        assert!(top[2] == 1.0 && bottom[2] == 1.0);
        assert!(top[0] < top[1] && top[1] < top[2]);
    }
    let straight_up = {
        let t: f64 = 0.5 * (1.0 + 1.0);
        [(1.0 - t) + t * 0.5, (1.0 - t) + t * 0.7, (1.0 - t) + t * 1.0]
    };
    assert_eq!(straight_up, [0.5, 0.7, 1.0]);
}
