//! Points, rays, the camera frame and the quadratic solver.

use raytracer::linalg::orthonormal_base::OrthonormalBase;
use raytracer::linalg::point3::Point3;
use raytracer::linalg::ray::Ray;
use raytracer::linalg::vec3::Vec3;
use raytracer::linalg::{smallest_greater_than_zero, solve_quadratic};

#[test]
fn a_distance_vector_can_be_computed() {
    let p = Point3::new(1000, -2000, 3000);
    let q = Point3::new(-4000, 5000, -6000);
    let d = p.distance_to(q);
    assert_eq!(d.x, -5000);
    assert_eq!(d.y, 7000);
    assert_eq!(d.z, -9000);
}

#[test]
fn a_point_can_be_displaced_by_a_vector() {
    let p = Point3::new(1500, -2500, 3500);
    let v = Vec3::new(0, -1000, -5000);
    let q = p.displace(v);
    assert_eq!(q.x, 1500);
    assert_eq!(q.y, -3500);
    assert_eq!(q.z, -1500);
}

#[test]
fn rays_can_return_points() {
    let ray = Ray::new(Point3::new(0, 0, 0), Vec3::new(0, 1000, 0));
    let p = ray.point_at_distance(5500);
    assert_eq!(p.x, 0);
    assert_eq!(p.y, 5500);
    assert_eq!(p.z, 0);
}

#[test]
fn an_orthonormal_frame_can_be_applied_to_a_vector() {
    let direction = Vec3::new(0, 2000, 1000).normalize();
    let up = Vec3::new(1000, 0, 1000).normalize();
    let ob = OrthonormalBase::construct(direction, up);
    let v = Vec3::new(1000, 2000, -3000);
    let r = ob.apply_vector(v);
    assert_eq!(r.x, -588);
    assert_eq!(r.y, -3645);
    assert_eq!(r.z, 586);
}

#[test]
fn the_quadratic_solver_finds_both_roots() {
    // t^2 - 3t + 2 = 0 has the roots 2 and 1; the fixed-point roots are in
    // thousandths of the parameter.
    let r = solve_quadratic(1, -3, 2);
    assert_eq!(r, Some((2000, 1000)));
}

#[test]
fn the_quadratic_solver_rejects_a_negative_discriminant() {
    // t^2 + 1 = 0 has no real root.
    let r = solve_quadratic(1, 0, 1);
    assert_eq!(r, None);
}

#[test]
fn the_smallest_positive_root_is_selected() {
    assert_eq!(smallest_greater_than_zero(2000, 1000), Some(1000));
    assert_eq!(smallest_greater_than_zero(-1000, 1000), Some(1000));
    assert_eq!(smallest_greater_than_zero(2000, -1000), Some(2000));
    assert_eq!(smallest_greater_than_zero(-2000, -1000), None);
    assert_eq!(smallest_greater_than_zero(0, 0), None);
}
