//! The camera sampler, scene tracing and whole-frame rendering.

use raytracer::film::color::Color;
use raytracer::film::pinhole_camera::{PinholeCamera, PinholeCameraConfig};
use raytracer::geom::mat::{DiffuseMaterial, Material};
use raytracer::geom::scene::Scene;
use raytracer::geom::sphere::Sphere;
use raytracer::geom::Shape;
use raytracer::light::{AmbientLight, Light, PointLight};
use raytracer::linalg::point3::Point3;
use raytracer::linalg::ray::Ray;
use raytracer::linalg::vec3::Vec3;

fn test_camera() -> PinholeCamera {
    PinholeCamera::new(&PinholeCameraConfig {
        position: Point3::new(0, 0, -3000),
        look_at: Point3::new(0, 0, 0),
        up: Vec3::new(0, 1000, 0),
        zoom: 1000,
        width: 1000,
        height: 1000,
        resolution_x: 8,
        resolution_y: 8,
    })
}

#[test]
fn the_camera_returns_sixteen_rays_per_pixel() {
    let camera = test_camera();
    let rays = camera.get_rays_for_coordinate(0, 0);
    assert_eq!(rays.len(), 16);
    for ray in &rays {
        assert_eq!((ray.origin.x, ray.origin.y, ray.origin.z), (0, 0, -3000));
    }
}

#[test]
fn the_camera_samples_are_stratified_and_exact() {
    let camera = test_camera();
    let rays = camera.get_rays_for_coordinate(0, 0);
    // The first sample of the corner pixel: one fifth into the pixel on
    // both axes, an eighth of a unit of film per pixel, focal distance one.
    let d0 = rays[0].direction;
    assert_eq!((d0.x, d0.y, d0.z), (475, -475, 1000));
    let d15 = rays[15].direction;
    assert_eq!((d15.x, d15.y, d15.z), (400, -400, 1000));
    // All sixteen sub-pixel samples are distinct.
    for i in 0..16 {
        for j in 0..16 {
            if i != j {
                let a = rays[i].direction;
                let b = rays[j].direction;
                assert!(a.x != b.x || a.y != b.y || a.z != b.z);
            }
        }
    }
}

#[test]
fn the_camera_samples_are_deterministic_across_calls() {
    let camera = test_camera();
    let first = camera.get_rays_for_coordinate(3, 4);
    let second = camera.get_rays_for_coordinate(3, 4);
    assert_eq!(first.len(), second.len());
    for i in 0..first.len() {
        assert_eq!(first[i], second[i]);
    }
    assert_eq!((first[5].direction.x, first[5].direction.y, first[5].direction.z),
        (-50, -75, 1000));
}

#[test]
fn the_builder_configures_a_camera_like_the_constructor() {
    let built = PinholeCamera::builder()
        .position(Point3::new(0, 0, -3000))
        .look_at(Point3::new(0, 0, 0))
        .resolution(8, 8)
        .dimensions(1000, 1000)
        .build();
    assert_eq!(built, test_camera());
    let harmonized = PinholeCamera::builder().resolution(8, 4).harmonize_dimensions(1000);
    assert_eq!(harmonized.config.width, 1000);
    assert_eq!(harmonized.config.height, 500);
}

fn white_mat() -> Material {
    Material::Diffuse(DiffuseMaterial::new(1000, Color::white(), 1000, Color::white()))
}

#[test]
fn tracing_a_miss_yields_black() {
    let scene = Scene {
        lights: vec![],
        ambient_light: Light::Ambient(AmbientLight::new(Color::white(), 800)),
        shape: Shape::Sphere(Sphere::new(Point3::new(0, 0, 0), 1000, white_mat())),
    };
    let ray = Ray::new(Point3::new(0, 0, -3000), Vec3::new(0, 1000, 0));
    let c = scene.trace(&ray);
    assert_eq!((c.r, c.g, c.b), (0, 0, 0));
}

#[test]
fn tracing_a_hit_shades_with_the_ambient_term() {
    let scene = Scene {
        lights: vec![],
        ambient_light: Light::Ambient(AmbientLight::new(Color::white(), 800)),
        shape: Shape::Sphere(Sphere::new(Point3::new(0, 0, 0), 1000, white_mat())),
    };
    let ray = Ray::new(Point3::new(0, 0, -3000), Vec3::new(0, 0, 1000));
    let c = scene.trace(&ray);
    assert_eq!((c.r, c.g, c.b), (800, 800, 800));
}

#[test]
fn tracing_adds_a_visible_point_light_contribution() {
    let red_mat = Material::Diffuse(DiffuseMaterial::new(800, Color::red(), 1000, Color::red()));
    let scene = Scene {
        lights: vec![Light::Point(PointLight::new(Point3::new(3000, 3000, -3000),
            Color::white(), 1000))],
        ambient_light: Light::Ambient(AmbientLight::new(Color::white(), 800)),
        shape: Shape::Sphere(Sphere::new(Point3::new(0, 0, 0), 1000, red_mat)),
    };
    let ray = Ray::new(Point3::new(0, 0, -3000), Vec3::new(0, 0, 1000));
    let c = scene.trace(&ray);
    assert_eq!((c.r, c.g, c.b), (800, 0, 0));
}

#[test]
fn rendering_an_ambient_sphere_gives_a_shaded_disc_on_background() {
    // A single sphere under white ambient light at intensity 0.8: pixels
    // on the disc all take the same ambient shade, and pixels outside it
    // only carry the (sixteenth of the) background.
    let scene = Scene {
        lights: vec![],
        ambient_light: Light::Ambient(AmbientLight::new(Color::white(), 800)),
        shape: Shape::Sphere(Sphere::new(Point3::new(0, 0, 0), 1000, white_mat())),
    };
    let camera = test_camera();
    let background = Color::new(388, 431, 447);
    let frame = scene.render(&camera, background, 8, 8);
    assert_eq!(frame.len(), 64);
    // Center pixels lie on the disc; the corner does not.
    assert_eq!(frame[4 * 8 + 4], [210, 210, 210]);
    assert_eq!(frame[3 * 8 + 3], [210, 210, 210]);
    assert_eq!(frame[0], [6, 6, 6]);
    assert_eq!(frame[7 * 8 + 7], [6, 6, 6]);
    // Every pixel is either fully on the disc, partly on it, or background.
    for px in &frame {
        assert!(px[0] >= 6 && px[0] <= 210);
    }
}

#[test]
fn the_composite_shape_reports_the_nearest_hit() {
    let near = Sphere::new(Point3::new(0, 0, 2000), 500, white_mat());
    let far = Sphere::new(Point3::new(0, 0, 6000), 500, white_mat());
    let shape = Shape::Composite(vec![far, near]);
    let ray = Ray::new(Point3::new(0, 0, 0), Vec3::new(0, 0, 1000));
    let hit = shape.hit(&ray).unwrap();
    assert_eq!(hit.distance, 1500);
    let empty = Shape::Composite(vec![]);
    assert!(empty.hit(&ray).is_none());
}
