use render3d::fixed::ONE;
use render3d::scene::{IntersectKind, Light, Sphere};
use render3d::tracer::RayTracing;
use render3d::vector::Vec3;

#[test]
fn outside_ray_at_sphere_center_reports_sphere() {
    // A unit sphere at (0, 0, 1), a ray from (-3, 0, 1) aimed at its center.
    let sphere = Sphere::new(Vec3::new(0, 0, ONE), ONE);
    let origin = Vec3::new(-3 * ONE, 0, ONE);
    let direction = Vec3::new(ONE, 0, 0);
    let hit = sphere.intersect(origin, direction).unwrap();
    assert_eq!(hit.kind, IntersectKind::Sphere);
    // The distance is |origin - center| - radius = 2, within a 1e-4 band.
    assert!(hit.distance >= 2 * ONE - 100 && hit.distance <= 2 * ONE + 100);
    assert_eq!(hit.hit_point.unwrap(), Vec3::new(-ONE, 0, ONE));
    // The normal points away from the center.
    let normal = hit.normal.unwrap();
    assert_eq!(normal, Vec3::new(-ONE, 0, 0));
    let away = hit.hit_point.unwrap().sub(sphere.center);
    assert!(normal.dot(away) > 0);
}

#[test]
fn inside_ray_still_hits_with_flipped_normal() {
    // A ray cast from the center of a unit sphere exits at the far root.
    let sphere = Sphere::new(Vec3::new(0, 0, ONE), ONE);
    let origin = Vec3::new(0, 0, ONE);
    let direction = Vec3::new(ONE, 0, 0);
    let hit = sphere.intersect(origin, direction);
    assert!(hit.is_some());
    let hit = hit.unwrap();
    assert_eq!(hit.kind, IntersectKind::Sphere);
    assert_eq!(hit.distance, ONE);
    // The hit point is the exit point, origin + direction * distance.
    assert_eq!(hit.hit_point.unwrap(), Vec3::new(ONE, 0, ONE));
    assert_eq!(
        hit.hit_point.unwrap(),
        origin.add(direction.scale(hit.distance))
    );
    // The normal is based at the exit point and flipped to point inward.
    let normal = hit.normal.unwrap();
    assert_eq!(normal, Vec3::new(-ONE, 0, 0));
    let outward = hit.hit_point.unwrap().sub(sphere.center);
    assert!(normal.dot(outward) < 0);
}

#[test]
fn zero_distance_roots_are_no_candidates() {
    // A ray leaving the surface outward: its far root is exactly zero.
    let sphere = Sphere::new(Vec3::new(0, 0, ONE), ONE);
    let leaving = sphere.intersect(Vec3::new(0, 0, 0), Vec3::new(0, 0, -ONE));
    assert!(leaving.is_none());
    // A ray entering at the surface reports the exit, never distance zero.
    let entering = sphere.intersect(Vec3::new(0, 0, 0), Vec3::new(0, 0, ONE));
    let hit = entering.unwrap();
    assert_eq!(hit.distance, 2 * ONE);
    assert!(hit.distance > 0);
    assert_eq!(hit.hit_point.unwrap(), Vec3::new(0, 0, 2 * ONE));
    assert_eq!(hit.normal.unwrap(), Vec3::new(0, 0, -ONE));
}

#[test]
fn ray_missing_the_sphere_returns_none() {
    let sphere = Sphere::new(Vec3::new(0, 0, ONE), ONE);
    let origin = Vec3::new(-3 * ONE, 0, 5 * ONE);
    let direction = Vec3::new(ONE, 0, 0);
    assert!(sphere.intersect(origin, direction).is_none());
}

#[test]
fn sphere_behind_the_origin_returns_none() {
    let sphere = Sphere::new(Vec3::new(0, 0, ONE), ONE);
    let origin = Vec3::new(3 * ONE, 0, ONE);
    let direction = Vec3::new(ONE, 0, 0);
    assert!(sphere.intersect(origin, direction).is_none());
}

#[test]
fn downward_ray_hits_the_ground_plane() {
    let r = RayTracing::new(4, 4, 1);
    let hit = r.intersect(Vec3::new(0, 0, 2 * ONE), Vec3::new(0, 0, -ONE));
    assert_eq!(hit.kind, IntersectKind::Ground);
    assert_eq!(hit.distance, 2 * ONE);
    let p = hit.hit_point.unwrap();
    assert_eq!(p.z, 0);
    assert_eq!(hit.normal.unwrap(), Vec3::new(0, 0, ONE));

    // A slanted falling ray still lands on the plane.
    let slanted = r.intersect(
        Vec3::new(ONE, ONE, 3 * ONE),
        Vec3::new(600_000, 0, -800_000),
    );
    assert_eq!(slanted.kind, IntersectKind::Ground);
    let q = slanted.hit_point.unwrap();
    assert!(q.z >= 0 && q.z <= 2);
}

#[test]
fn upward_ray_reports_sky() {
    let r = RayTracing::new(4, 4, 1);
    let hit = r.intersect(Vec3::new(0, 0, ONE), Vec3::new(0, 0, ONE));
    assert_eq!(hit.kind, IntersectKind::Sky);
    assert!(hit.hit_point.is_none());
    assert!(hit.normal.is_none());
    assert_eq!(hit.distance, i64::MAX);
}

#[test]
fn nearest_sphere_wins_over_ground_and_farther_spheres() {
    let mut r = RayTracing::new(4, 4, 1);
    r.put_sphere(Sphere::new(Vec3::new(6 * ONE, 0, ONE), ONE));
    r.put_sphere(Sphere::new(Vec3::new(3 * ONE, 0, ONE), ONE));
    let hit = r.intersect(Vec3::new(0, 0, ONE), Vec3::new(ONE, 0, 0));
    assert_eq!(hit.kind, IntersectKind::Sphere);
    assert_eq!(hit.distance, 2 * ONE);
    assert_eq!(hit.hit_point.unwrap(), Vec3::new(2 * ONE, 0, ONE));
}

#[test]
fn shadowing_sphere_zeroes_a_lights_contribution() {
    // The ground point under the camera is lit from straight above, but an
    // opaque sphere sits between the point and the light.
    let mut shadowed = RayTracing::new(4, 4, 1);
    shadowed.put_light(Light::new(Vec3::new(0, 0, 5 * ONE), ONE));
    shadowed.put_sphere(Sphere::new(Vec3::new(0, 0, 2_500_000), 500_000));

    // The shadow ray from the ground point to the light meets the sphere.
    let shadow_ray = shadowed.intersect(Vec3::new(0, 0, 0), Vec3::new(0, 0, ONE));
    assert_eq!(shadow_ray.kind, IntersectKind::Sphere);

    // So the ground is shaded by the ambient bias alone.
    let color = shadowed.radiance(Vec3::new(0, 0, ONE), Vec3::new(0, 0, -ONE), 0);
    assert_eq!(color, Vec3::new(90_000, 10_000, 10_000));

    // Without the sphere the same light contributes fully.
    let mut lit = RayTracing::new(4, 4, 1);
    lit.put_light(Light::new(Vec3::new(0, 0, 5 * ONE), ONE));
    let color = lit.radiance(Vec3::new(0, 0, ONE), Vec3::new(0, 0, -ONE), 0);
    assert_eq!(color, Vec3::new(990_000, 110_000, 110_000));
}

#[test]
fn radiance_beyond_the_depth_cap_gathers_no_reflection() {
    // A mirror corridor: two spheres facing each other.
    let mut r = RayTracing::new(4, 4, 1);
    r.put_sphere(Sphere::new(Vec3::new(3 * ONE, 0, ONE), ONE));
    r.put_sphere(Sphere::new(Vec3::new(-3 * ONE, 0, ONE), ONE));
    r.put_light(Light::new(Vec3::new(0, 0, 5 * ONE), ONE));
    let origin = Vec3::new(0, 0, ONE);
    let direction = Vec3::new(ONE, 0, 0);
    // Any two depths beyond the cap shade identically.
    let a = r.radiance(origin, direction, 4);
    let b = r.radiance(origin, direction, 5);
    let c = r.radiance(origin, direction, 9);
    assert_eq!(a, b);
    assert_eq!(a, c);
}

#[test]
fn sky_fades_by_the_fourth_power_of_height() {
    let r = RayTracing::new(4, 4, 1);
    // A level ray sees the full sky color.
    let level = r.radiance(Vec3::new(0, 0, ONE), Vec3::new(ONE, 0, 0), 0);
    assert_eq!(level, Vec3::new(700_000, 600_000, 1_000_000));
    // A ray straight up sees black: (1 - 1)^4 = 0.
    let up = r.radiance(Vec3::new(0, 0, ONE), Vec3::new(0, 0, ONE), 0);
    assert_eq!(up, Vec3::new(0, 0, 0));
}
