//! Lights: intensity clamping, cast colors, and point-light visibility.

use raytracer::film::color::Color;
use raytracer::geom::mat::{DebugMaterial, Material};
use raytracer::geom::sphere::Sphere;
use raytracer::geom::Shape;
use raytracer::light::{AmbientLight, Light, PointLight};
use raytracer::linalg::point3::Point3;

fn occluder() -> Shape {
    Shape::Composite(vec![Sphere::new(Point3::new(0, 1000, 0), 500,
        Material::Marker(DebugMaterial::new()))])
}

#[test]
fn pointlight_illuminates_point_with_no_obstruction() {
    let shapes = occluder();
    let light = Light::Point(PointLight::new(Point3::new(0, 0, 0), Color::red(), 500));
    let illuminates = light.illuminates_point(Point3::new(0, -1000, 0), &shapes);
    assert_eq!(illuminates, true);
}

#[test]
fn pointlight_does_not_illuminate_point_with_obstruction() {
    let shapes = occluder();
    let light = Light::Point(PointLight::new(Point3::new(0, 0, 0), Color::red(), 500));
    let illuminates = light.illuminates_point(Point3::new(0, 2000, 0), &shapes);
    assert_eq!(illuminates, false);
}

#[test]
fn ambient_light_illuminates_everything() {
    let shapes = occluder();
    let light = Light::Ambient(AmbientLight::new(Color::white(), 800));
    assert_eq!(light.illuminates_point(Point3::new(0, 2000, 0), &shapes), true);
    assert_eq!(light.illuminates_point(Point3::new(0, -1000, 0), &shapes), true);
}

#[test]
fn intensity_is_clamped_at_construction() {
    let too_low = PointLight::new(Point3::new(0, 0, 0), Color::white(), -500);
    assert_eq!(too_low.intensity, 0);
    let too_high = AmbientLight::new(Color::white(), 1500);
    assert_eq!(too_high.intensity, 1000);
    let in_range = AmbientLight::new(Color::white(), 800);
    assert_eq!(in_range.intensity, 800);
}

#[test]
fn a_light_casts_its_color_scaled_by_its_intensity() {
    let light = Light::Point(PointLight::new(Point3::new(0, 0, 0), Color::red(), 500));
    let c = light.color();
    assert_eq!((c.r, c.g, c.b), (500, 0, 0));
    let ambient = Light::Ambient(AmbientLight::new(Color::white(), 800));
    let a = ambient.color();
    assert_eq!((a.r, a.g, a.b), (800, 800, 800));
}

#[test]
fn the_sampling_hooks_are_fixed_at_one() {
    let light = Light::Ambient(AmbientLight::new(Color::white(), 800));
    assert_eq!(light.geometric_factor(), 1000);
    assert_eq!(light.probability_density(), 1000);
}
