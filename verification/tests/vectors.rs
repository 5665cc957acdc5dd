//! Vector algebra over fixed-point scalars: one whole unit is 1000.

use raytracer::linalg::vec3::Vec3;

#[test]
fn vectors_have_a_length() {
    let v = Vec3::new(1000, -2000, 3000);
    let r = v.length();
    assert_eq!(r, 3741);
}

#[test]
fn vectors_have_a_squared_length() {
    let v = Vec3::new(1000, -2000, 3000);
    let r = v.length_squared();
    assert_eq!(r, 14000000);
}

#[test]
fn vectors_can_be_added() {
    let v = Vec3::new(1000, 2000, 3000);
    let w = Vec3::new(500, 100, -800);
    let r = v.add(w);
    assert_eq!(r.x, 1500);
    assert_eq!(r.y, 2100);
    assert_eq!(r.z, 2200);
}

#[test]
fn vectors_can_be_subtracted() {
    let v = Vec3::new(1500, 2900, -8000);
    let w = Vec3::new(-5000, 5000, 5500);
    let r = v.sub(w);
    assert_eq!(r.x, 6500);
    assert_eq!(r.y, -2100);
    assert_eq!(r.z, -13500);
}

#[test]
fn vectors_can_be_multiplied_by_a_scalar() {
    let v = Vec3::new(1500, -2000, -500);
    let r = v.mul(2500);
    assert_eq!(r.x, 3750);
    assert_eq!(r.y, -5000);
    assert_eq!(r.z, -1250);
}

#[test]
fn vectors_can_be_divided_by_a_scalar() {
    let v = Vec3::new(1000, -2000, 3000);
    let r = v.div(2000);
    assert_eq!(r.x, 500);
    assert_eq!(r.y, -1000);
    assert_eq!(r.z, 1500);
}

#[test]
fn two_vectors_have_a_dot_product() {
    let v = Vec3::new(1000, -2000, 3000);
    let w = Vec3::new(0, 5000, 2500);
    let r = v.dot(w);
    assert_eq!(r, -2500000);
}

#[test]
fn two_vectors_have_a_cross_product() {
    let v = Vec3::new(1000, 0, 0);
    let w = Vec3::new(0, 1000, 0);
    let r = v.cross(w);
    assert_eq!(r.x, 0);
    assert_eq!(r.y, 0);
    assert_eq!(r.z, 1000000);
}

#[test]
fn normalizing_a_unit_vector_returns_it_unchanged() {
    let v = Vec3::new(0, 1000, 0);
    let r = v.normalize();
    assert_eq!((r.x, r.y, r.z), (0, 1000, 0));
    let w = Vec3::new(600, 800, 0);
    assert_eq!(w.length_squared(), 1000000);
    let rw = w.normalize();
    assert_eq!((rw.x, rw.y, rw.z), (600, 800, 0));
}

#[test]
fn normalizing_twice_is_normalizing_once() {
    let v = Vec3::new(3000, 4000, 0);
    let once = v.normalize();
    assert_eq!((once.x, once.y, once.z), (600, 800, 0));
    let twice = once.normalize();
    assert_eq!((twice.x, twice.y, twice.z), (once.x, once.y, once.z));
}

#[test]
fn cross_product_is_orthogonal_to_both_factors() {
    let a = Vec3::new(1000, -2000, 3000);
    let b = Vec3::new(700, 5000, 2500);
    let c = a.cross(b);
    assert_eq!(c.dot(a), 0);
    assert_eq!(c.dot(b), 0);
    let d = Vec3::new(123, 456, -789);
    let e = Vec3::new(-321, 654, 987);
    let f = d.cross(e);
    assert_eq!(f.dot(d), 0);
    assert_eq!(f.dot(e), 0);
}

#[test]
fn the_zero_vector_normalizes_to_itself() {
    let v = Vec3::new(0, 0, 0);
    let r = v.normalize();
    assert_eq!((r.x, r.y, r.z), (0, 0, 0));
}
