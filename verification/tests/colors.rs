//! The color model: clamping and the linear 8-bit encode/decode pair.

use raytracer::film::color::Color;

#[test]
fn color_can_be_clamped_between_0_and_1() {
    let c = Color::new(-800, 1200, 400);
    let cc = c.clamp();
    assert_eq!(cc.r, 0);
    assert_eq!(cc.g, 1000);
    assert_eq!(cc.b, 400);
}

#[test]
fn color_can_compute_rgb_u8s() {
    let c = Color::new(0, 500, 1000);
    let [r, g, b] = c.to_rgb();
    assert_eq!(r, 0);
    assert_eq!(g, 127);
    assert_eq!(b, 255);
}

#[test]
fn clamping_an_already_clamped_color_changes_nothing() {
    let c = Color::new(-800, 1200, 400).clamp();
    let cc = c.clamp();
    assert_eq!((cc.r, cc.g, cc.b), (c.r, c.g, c.b));
}

#[test]
fn clamp_mut_matches_clamp() {
    let c = Color::new(-800, 1200, 400);
    let mut m = c;
    m.clamp_mut();
    let cc = c.clamp();
    assert_eq!((m.r, m.g, m.b), (cc.r, cc.g, cc.b));
}

#[test]
fn decoding_then_encoding_returns_every_byte() {
    let samples: [u8; 8] = [0, 1, 50, 51, 127, 128, 254, 255];
    let mut i = 0;
    while i < samples.len() {
        let v = samples[i];
        let c = Color::from_rgb(v, v, v);
        let [r, g, b] = c.to_rgb();
        assert_eq!(r, v);
        assert_eq!(g, v);
        assert_eq!(b, v);
        i += 1;
    }
}

#[test]
fn colors_add_and_multiply_componentwise() {
    let a = Color::new(100, 200, 300);
    let b = Color::new(400, 500, 600);
    let s = a.add(b);
    assert_eq!((s.r, s.g, s.b), (500, 700, 900));
    let p = a.mul(b);
    assert_eq!((p.r, p.g, p.b), (40, 100, 180));
    let q = a.mul_scalar(500);
    assert_eq!((q.r, q.g, q.b), (50, 100, 150));
}

#[test]
fn marker_colors_use_a_near_zero_epsilon() {
    let r = Color::red();
    assert_eq!((r.r, r.g, r.b), (1000, 1, 1));
    let g = Color::green();
    assert_eq!((g.r, g.g, g.b), (1, 1000, 1));
    let b = Color::blue();
    assert_eq!((b.r, b.g, b.b), (1, 1, 1000));
    let w = Color::white();
    assert_eq!((w.r, w.g, w.b), (1000, 1000, 1000));
    let k = Color::black();
    assert_eq!((k.r, k.g, k.b), (0, 0, 0));
}

#[test]
fn a_color_normalizes_like_a_vector() {
    let c = Color::new(3000, 4000, 0);
    let n = c.normalize();
    assert_eq!((n.r, n.g, n.b), (600, 800, 0));
    let z = Color::black().normalize();
    assert_eq!((z.r, z.g, z.b), (0, 0, 0));
}

#[test]
fn in_place_color_updates_match_the_pure_operations() {
    let a = Color::new(100, 200, 300);
    let b = Color::new(400, 500, 600);
    let mut m = a;
    m.add_assign(b);
    let s = a.add(b);
    assert_eq!((m.r, m.g, m.b), (s.r, s.g, s.b));
    let mut n = a;
    n.mul_assign(500);
    let p = a.mul_scalar(500);
    assert_eq!((n.r, n.g, n.b), (p.r, p.g, p.b));
}
