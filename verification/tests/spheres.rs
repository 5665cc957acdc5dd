//! Sphere intersection: the quadratic, root selection, and the derived
//! hit point and normal.

use raytracer::geom::mat::{DebugMaterial, Material};
use raytracer::geom::sphere::Sphere;
use raytracer::linalg::point3::Point3;
use raytracer::linalg::ray::Ray;
use raytracer::linalg::vec3::Vec3;

fn marker() -> Material {
    Material::Marker(DebugMaterial::new())
}

#[test]
fn a_ray_not_intersecting_a_sphere_will_return_none() {
    let sphere = Sphere::new(Point3::new(3000, 2000, 0), 1000, marker());
    let ray = Ray::new(Point3::new(0, 0, 0), Vec3::new(0, 1000, 0));
    let hit = sphere.hit(&ray);
    assert_eq!(hit.is_none(), true);
}

#[test]
fn a_ray_intersecting_a_sphere_will_return_some_hitinfo_with_distance() {
    let sphere = Sphere::new(Point3::new(0, 2000, 0), 1000, marker());
    let ray = Ray::new(Point3::new(0, 0, 0), Vec3::new(0, 1000, 0));
    let hit = sphere.hit(&ray);
    assert_eq!(hit.is_some(), true);
    let hit_info = hit.unwrap();
    assert_eq!(hit_info.distance, 1000);
}

#[test]
fn a_ray_intersecting_a_sphere_from_behind_will_return_none() {
    let sphere = Sphere::new(Point3::new(0, 2000, 0), 1000, marker());
    let ray = Ray::new(Point3::new(0, 0, 0), Vec3::new(0, -1000, 0));
    let hit = sphere.hit(&ray);
    assert_eq!(hit.is_none(), true);
}

#[test]
fn a_ray_at_a_sphere_center_hits_at_distance_minus_radius() {
    // Origin five units from the center, radius one, unit direction
    // straight at the center: the hit parameter is the distance to the
    // center minus the radius, exactly at this precision.
    let sphere = Sphere::new(Point3::new(0, 5000, 0), 1000, marker());
    let ray = Ray::new(Point3::new(0, 0, 0), Vec3::new(0, 1000, 0));
    let hit = sphere.hit(&ray).unwrap();
    assert_eq!(hit.distance, 4000);
    assert_eq!((hit.hit_point.x, hit.hit_point.y, hit.hit_point.z), (0, 4000, 0));
    assert_eq!((hit.normal.x, hit.normal.y, hit.normal.z), (0, -1000, 0));
}

#[test]
fn the_near_intersection_wins_when_both_are_ahead() {
    // Entering at one unit, leaving at three: the near root is reported.
    let sphere = Sphere::new(Point3::new(0, 2000, 0), 1000, marker());
    let ray = Ray::new(Point3::new(0, 0, 0), Vec3::new(0, 1000, 0));
    assert_eq!(sphere.hit(&ray).unwrap().distance, 1000);
}
