use raytracer::hittable::Crossing;
use raytracer::hittable::HitRecord;
use raytracer::hittable::Roots;
use raytracer::hittable_list::HittableList;
use raytracer::material::Material;
use raytracer::scalar::Scalar;
use raytracer::sphere::Sphere;
use raytracer::vec3::Vec3;

fn s(x: f32) -> Scalar {
    Scalar::from_bits(x.to_bits())
}

fn v(x: f32, y: f32, z: f32) -> Vec3 {
    Vec3::new(s(x), s(y), s(z))
}

fn bits(a: Vec3) -> [u32; 3] {
    [a.x().to_bits(), a.y().to_bits(), a.z().to_bits()]
}

fn grey(level: f32) -> Material {
    Material::Lambertian { albedo: v(level, level, level) }
}

fn level(rec: &HitRecord) -> f32 {
    match rec.material {
        Material::Lambertian { albedo } => f32::from_bits(albedo.x().to_bits()),
        _ => panic!("a grey surface was expected"),
    }
}

/// The quadratic of the ray `origin + t * direction` against a sphere.
fn roots(center: [f32; 3], radius: f32, origin: [f32; 3], direction: [f32; 3]) -> Roots {
    let oc = [origin[0] - center[0], origin[1] - center[1], origin[2] - center[2]];
    let dot = |a: [f32; 3], b: [f32; 3]| a[0] * b[0] + a[1] * b[1] + a[2] * b[2];
    let a = dot(direction, direction);
    let b = dot(oc, direction);
    let c = dot(oc, oc) - radius * radius;
    let discriminant = b * b - a * c;
    let crossing = |t: f32| {
        let p = [
            origin[0] + t * direction[0],
            origin[1] + t * direction[1],
            origin[2] + t * direction[2],
        ];
        Crossing::new(
            s(t),
            v(p[0], p[1], p[2]),
            v(
                (p[0] - center[0]) / radius,
                (p[1] - center[1]) / radius,
                (p[2] - center[2]) / radius,
            ),
        )
    };
    Roots::new(
        s(discriminant),
        crossing((-b - discriminant.sqrt()) / a),
        crossing((-b + discriminant.sqrt()) / a),
    )
}

fn ball(center: [f32; 3], radius: f32, material: Material) -> Sphere {
    Sphere::new(v(center[0], center[1], center[2]), s(radius), material)
}

/// Roots with the given discriminant and parameters, at made-up points.
fn plain(discriminant: f32, near: f32, far: f32) -> Roots {
    Roots::new(
        s(discriminant),
        Crossing::new(s(near), v(near, 0.0, 0.0), v(1.0, 0.0, 0.0)),
        Crossing::new(s(far), v(far, 0.0, 0.0), v(-1.0, 0.0, 0.0)),
    )
}

#[test]
fn a_ray_aimed_at_the_center_hits_at_the_nearer_root() {
    let center = [0.0, 0.0, -1.0];
    let sphere = ball(center, 0.5, grey(0.5));
    let r = roots(center, 0.5, [0.0, 0.0, 0.0], [0.0, 0.0, -1.0]);
    let rec = sphere.hit(&r, s(0.001), s(f32::MAX)).expect("the ray goes through the center");
    assert_eq!(rec.t.to_bits(), 0.5f32.to_bits());
    assert_eq!(bits(rec.p), bits(v(0.0, 0.0, -0.5)));
    assert_eq!(bits(rec.normal), bits(v(0.0, 0.0, 1.0)));
    assert_eq!(level(&rec), 0.5);
}

#[test]
fn a_ray_that_passes_beside_the_sphere_misses_it() {
    let center = [0.0, 0.0, -1.0];
    let sphere = ball(center, 0.5, grey(0.5));
    let r = roots(center, 0.5, [0.0, 0.0, 0.0], [1.0, 0.0, -1.0]);
    assert!(f32::from_bits(r.discriminant.to_bits()) <= 0.0);
    assert!(sphere.hit(&r, s(0.001), s(f32::MAX)).is_none());
}

#[test]
fn a_grazing_ray_with_zero_discriminant_misses() {
    let sphere = ball([0.0, 0.0, 0.0], 1.0, grey(0.5));
    assert!(sphere.hit(&plain(0.0, 1.0, 1.0), s(0.001), s(f32::MAX)).is_none());
    assert!(sphere.hit(&plain(-0.0, 1.0, 1.0), s(0.001), s(f32::MAX)).is_none());
    assert!(sphere.hit(&plain(f32::NAN, 1.0, 1.0), s(0.001), s(f32::MAX)).is_none());
    assert!(sphere.hit(&plain(-1.0, 1.0, 2.0), s(0.001), s(f32::MAX)).is_none());
}

#[test]
fn from_inside_the_sphere_the_farther_root_is_taken() {
    let center = [0.0, 0.0, -1.0];
    let sphere = ball(center, 0.5, grey(0.5));
    let r = roots(center, 0.5, [0.0, 0.0, -1.0], [0.0, 0.0, -1.0]);
    let rec = sphere.hit(&r, s(0.001), s(f32::MAX)).expect("the ray leaves the sphere");
    assert_eq!(rec.t.to_bits(), 0.5f32.to_bits());
    assert_eq!(bits(rec.p), bits(v(0.0, 0.0, -1.5)));
    assert_eq!(bits(rec.normal), bits(v(0.0, 0.0, -1.0)));
}

#[test]
fn the_ends_of_the_interval_are_excluded() {
    let sphere = ball([0.0, 0.0, 0.0], 1.0, grey(0.5));
    let r = plain(1.0, 2.0, 4.0);
    assert_eq!(sphere.hit(&r, s(1.0), s(5.0)).map(|h| h.t.to_bits()), Some(2.0f32.to_bits()));
    assert_eq!(sphere.hit(&r, s(2.0), s(5.0)).map(|h| h.t.to_bits()), Some(4.0f32.to_bits()));
    assert_eq!(sphere.hit(&r, s(1.0), s(2.0)).map(|h| h.t.to_bits()), None);
    assert_eq!(sphere.hit(&r, s(2.0), s(4.0)).map(|h| h.t.to_bits()), None);
    assert_eq!(sphere.hit(&r, s(4.0), s(9.0)).map(|h| h.t.to_bits()), None);
    assert_eq!(sphere.hit(&r, s(1.0), s(f32::NAN)).map(|h| h.t.to_bits()), None);
}

#[test]
fn a_negative_radius_turns_the_normal_inwards() {
    let center = [0.0, 0.0, -1.0];
    let sphere = ball(center, -0.5, grey(0.5));
    let r = roots(center, -0.5, [0.0, 0.0, 0.0], [0.0, 0.0, -1.0]);
    let rec = sphere.hit(&r, s(0.001), s(f32::MAX)).expect("the ray goes through the center");
    assert_eq!(rec.t.to_bits(), 0.5f32.to_bits());
    assert_eq!(bits(rec.normal), bits(v(-0.0, -0.0, -1.0)));
}

#[test]
fn an_empty_scene_is_never_hit() {
    let world = HittableList::new(Vec::new());
    assert_eq!(world.len(), 0);
    assert!(world.hit(&Vec::new(), s(0.001), s(f32::MAX)).is_none());
}

#[test]
fn the_nearest_sphere_is_reported_in_any_order() {
    let spheres = [
        (ball([0.0, 0.0, -5.0], 1.0, grey(0.1)), plain(1.0, 4.0, 6.0)),
        (ball([0.0, 0.0, -2.0], 1.0, grey(0.2)), plain(1.0, 1.0, 3.0)),
        (ball([0.0, 0.0, -9.0], 1.0, grey(0.3)), plain(1.0, 8.0, 10.0)),
        (ball([0.0, 9.0, 0.0], 1.0, grey(0.4)), plain(-1.0, 0.5, 0.6)),
    ];
    let orders: [[usize; 4]; 5] =
        [[0, 1, 2, 3], [3, 2, 1, 0], [1, 0, 3, 2], [2, 3, 0, 1], [1, 2, 3, 0]];
    for order in orders {
        let world = HittableList::new(order.iter().map(|&i| spheres[i].0).collect());
        let roots: Vec<Roots> = order.iter().map(|&i| spheres[i].1).collect();
        let rec = world.hit(&roots, s(0.001), s(f32::MAX)).expect("three spheres are hit");
        assert_eq!(rec.t.to_bits(), 1.0f32.to_bits());
        assert_eq!(level(&rec), 0.2);
    }
}

#[test]
fn of_two_spheres_hit_equally_near_the_first_is_reported() {
    let a = ball([0.0, 0.0, -2.0], 1.0, grey(0.1));
    let b = ball([0.0, 0.0, -2.0], 1.0, grey(0.2));
    let r = plain(1.0, 1.0, 3.0);
    let world = HittableList::new(vec![a, b]);
    let rec = world.hit(&vec![r, r], s(0.001), s(f32::MAX)).expect("both are hit");
    assert_eq!(level(&rec), 0.1);
    let world = HittableList::new(vec![b, a]);
    let rec = world.hit(&vec![r, r], s(0.001), s(f32::MAX)).expect("both are hit");
    assert_eq!(level(&rec), 0.2);
}

#[test]
fn a_hit_behind_the_bound_is_not_reported() {
    let world = HittableList::new(vec![ball([0.0, 0.0, -5.0], 1.0, grey(0.1))]);
    let roots = vec![plain(1.0, 4.0, 6.0)];
    assert!(world.hit(&roots, s(0.001), s(3.0)).is_none());
    assert!(world.hit(&roots, s(6.0), s(f32::MAX)).is_none());
    let rec = world.hit(&roots, s(4.0), s(f32::MAX)).expect("the far crossing is in reach");
    assert_eq!(rec.t.to_bits(), 6.0f32.to_bits());
}

#[test]
fn the_scene_hands_out_its_spheres_in_order() {
    let world = HittableList::new(vec![
        ball([1.0, 2.0, 3.0], 0.5, grey(0.1)),
        ball([4.0, 5.0, 6.0], 1.5, grey(0.2)),
    ]);
    assert_eq!(world.len(), 2);
    assert_eq!(bits(world.sphere(0).center), bits(v(1.0, 2.0, 3.0)));
    assert_eq!(world.sphere(1).radius.to_bits(), 1.5f32.to_bits());
}
