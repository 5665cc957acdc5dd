//! Linear-light color triples with clamping and 8-bit encoding.
//!
//! Channels are fixed-point scalars in thousandths, conceptually in the
//! unit interval but allowed to exceed it transiently while light sums are
//! accumulated; they are clamped before encoding. The encode/decode pair
//! is linear: encoding truncates `channel * 255 / SCALE`, and decoding
//! rounds `value * SCALE / 255` up, which makes decode-then-encode the
//! identity (proved below).

use vstd::prelude::*;
use crate::{div_trunc_wide, fits_i64, lemma_fixed_mul_scaled_bound, tdiv, SCALE};

verus! {

/// The near-zero channel value used by the marker colors in place of an
/// exact zero, so that a color reinterpreted as a vector downstream never
/// normalizes a zero length: one thousandth of a unit, the smallest
/// positive channel this representation has.
pub const COLOR_EPS: i64 = 1;

/// The largest channel magnitude the componentwise product accepts.
pub const CHANNEL_CAP: i64 = 2147483648;

/// The largest channel magnitude `normalize` accepts, so that the squared
/// length of the triple stays within a 64-bit word.
pub const CHANNEL_NORM_CAP: i64 = 1000000000;

/// A channel clamped to the unit interval.
pub open spec fn clamp_channel_spec(c: int) -> int {
    if c > SCALE {
        SCALE as int
    } else if c < 0 {
        0
    } else {
        c
    }
}

/// A clamped channel encoded to 8 bits: `c * 255 / SCALE`, truncated.
pub open spec fn encode_channel(c: int) -> int {
    (c * 255) / (SCALE as int)
}

/// An 8-bit value decoded to a channel: `v * SCALE / 255`, rounded up, so
/// that encoding the result gives `v` back.
pub open spec fn decode_channel(v: int) -> int {
    (v * SCALE + 254) / 255
}

/// Every channel lies in the unit interval.
pub open spec fn color_in_unit(c: Color) -> bool {
    0 <= c.r <= SCALE && 0 <= c.g <= SCALE && 0 <= c.b <= SCALE
}

/// Every channel is at most `b` in magnitude.
pub open spec fn color_bounded(c: Color, b: int) -> bool {
    -b <= c.r <= b && -b <= c.g <= b && -b <= c.b <= b
}

/// The componentwise sum, at the specification level.
pub open spec fn color_add_spec(a: Color, b: Color) -> Color {
    Color { r: (a.r + b.r) as i64, g: (a.g + b.g) as i64, b: (a.b + b.b) as i64 }
}

/// The componentwise fixed-point product, at the specification level.
pub open spec fn color_mul_spec(a: Color, b: Color) -> Color {
    Color {
        r: tdiv(a.r * b.r, SCALE as int) as i64,
        g: tdiv(a.g * b.g, SCALE as int) as i64,
        b: tdiv(a.b * b.b, SCALE as int) as i64,
    }
}

/// The fixed-point scaling of every channel, at the specification level.
pub open spec fn color_scale_spec(a: Color, s: int) -> Color {
    Color {
        r: tdiv(a.r * s, SCALE as int) as i64,
        g: tdiv(a.g * s, SCALE as int) as i64,
        b: tdiv(a.b * s, SCALE as int) as i64,
    }
}

/// A unit-interval channel scaled by a unit-interval factor stays in the
/// unit interval.
pub proof fn lemma_unit_channel_scaled(c: int, s: int)
    requires
        0 <= c <= SCALE,
        0 <= s <= SCALE,
    ensures
        0 <= tdiv(c * s, SCALE as int) <= SCALE,
{
    crate::lemma_mul_bound(c, s, SCALE as int, SCALE as int);
    assert(c * s >= 0) by (nonlinear_arith)
        requires c >= 0 && s >= 0;
    vstd::arithmetic::div_mod::lemma_div_pos_is_pos(c * s, SCALE as int);
    vstd::arithmetic::div_mod::lemma_div_is_ordered(c * s, SCALE as int * SCALE as int,
        SCALE as int);
    crate::lemma_tdiv_exact(SCALE as int, SCALE as int);
}

/// A unit-interval color scaled by a unit-interval factor stays in the
/// unit interval.
pub proof fn lemma_unit_color_scaled(c: Color, s: int)
    requires
        color_in_unit(c),
        0 <= s <= SCALE,
    ensures
        color_in_unit(color_scale_spec(c, s)),
{
    lemma_unit_channel_scaled(c.r as int, s);
    lemma_unit_channel_scaled(c.g as int, s);
    lemma_unit_channel_scaled(c.b as int, s);
}

/// The componentwise product of two unit-interval colors stays in the
/// unit interval.
pub proof fn lemma_unit_color_mul(a: Color, b: Color)
    requires
        color_in_unit(a),
        color_in_unit(b),
    ensures
        color_in_unit(color_mul_spec(a, b)),
{
    lemma_unit_channel_scaled(a.r as int, b.r as int);
    lemma_unit_channel_scaled(a.g as int, b.g as int);
    lemma_unit_channel_scaled(a.b as int, b.b as int);
}

/// A linear-light color triple; owned by value and cheap to copy.
#[derive(Debug, Clone, Copy, PartialEq, Eq, Structural)]
pub struct Color {
    pub r: i64,
    pub g: i64,
    pub b: i64,
}

impl Color {
    pub fn new(r: i64, g: i64, b: i64) -> (c: Self)
        ensures
            c == (Color { r, g, b }),
    {
        Self { r, g, b }
    }

    pub fn black() -> (c: Self)
        ensures
            c.r == 0 && c.g == 0 && c.b == 0,
    {
        Self { r: 0, g: 0, b: 0 }
    }

    pub fn white() -> (c: Self)
        ensures
            c.r == SCALE && c.g == SCALE && c.b == SCALE,
    {
        Self { r: SCALE, g: SCALE, b: SCALE }
    }

    pub fn red() -> (c: Self)
        ensures
            c.r == SCALE && c.g == COLOR_EPS && c.b == COLOR_EPS,
    {
        Self { r: SCALE, g: COLOR_EPS, b: COLOR_EPS }
    }

    pub fn green() -> (c: Self)
        ensures
            c.r == COLOR_EPS && c.g == SCALE && c.b == COLOR_EPS,
    {
        Self { r: COLOR_EPS, g: SCALE, b: COLOR_EPS }
    }

    pub fn blue() -> (c: Self)
        ensures
            c.r == COLOR_EPS && c.g == COLOR_EPS && c.b == SCALE,
    {
        Self { r: COLOR_EPS, g: COLOR_EPS, b: SCALE }
    }

    /// Rescale the triple, read as a 3-vector, to (approximately) unit
    /// length, each channel by `SCALE` over the length of the triple,
    /// rounding toward zero; an all-zero triple stays as it is.
    pub fn normalize(self) -> (c: Self)
        requires
            color_bounded(self, CHANNEL_NORM_CAP as int),
        ensures
            c.r == crate::linalg::vec3::normalize_coord(self.r as int, color_ls(self)),
            c.g == crate::linalg::vec3::normalize_coord(self.g as int, color_ls(self)),
            c.b == crate::linalg::vec3::normalize_coord(self.b as int, color_ls(self)),
    {
        let v = crate::linalg::vec3::Vec3 { x: self.r, y: self.g, z: self.b };
        proof {
            crate::lemma_mul_bound(self.r as int, self.r as int, CHANNEL_NORM_CAP as int,
                CHANNEL_NORM_CAP as int);
            crate::lemma_mul_bound(self.g as int, self.g as int, CHANNEL_NORM_CAP as int,
                CHANNEL_NORM_CAP as int);
            crate::lemma_mul_bound(self.b as int, self.b as int, CHANNEL_NORM_CAP as int,
                CHANNEL_NORM_CAP as int);
        }
        let n = v.normalize();
        Self { r: n.x, g: n.y, b: n.z }
    }

    /// Clamp every channel to the unit interval.
    pub fn clamp(self) -> (c: Self)
        ensures
            c.r == clamp_channel_spec(self.r as int),
            c.g == clamp_channel_spec(self.g as int),
            c.b == clamp_channel_spec(self.b as int),
    {
        Self {
            r: clamp_channel(self.r),
            g: clamp_channel(self.g),
            b: clamp_channel(self.b),
        }
    }

    /// Clamp every channel to the unit interval, in place.
    pub fn clamp_mut(&mut self)
        ensures
            final(self).r == clamp_channel_spec(old(self).r as int),
            final(self).g == clamp_channel_spec(old(self).g as int),
            final(self).b == clamp_channel_spec(old(self).b as int),
    {
        self.r = clamp_channel(self.r);
        self.g = clamp_channel(self.g);
        self.b = clamp_channel(self.b);
    }

    /// Encode a clamped color as an 8-bit triple: each channel becomes
    /// `channel * 255 / SCALE`, truncated. Callers clamp first; the
    /// precondition records that invariant.
    pub fn to_rgb(self) -> (rgb: [u8; 3])
        requires
            0 <= self.r <= SCALE,
            0 <= self.g <= SCALE,
            0 <= self.b <= SCALE,
        ensures
            rgb[0] == encode_channel(self.r as int),
            rgb[1] == encode_channel(self.g as int),
            rgb[2] == encode_channel(self.b as int),
    {
        [encode(self.r), encode(self.g), encode(self.b)]
    }

    /// Decode an 8-bit triple into a color with channels in the unit
    /// interval. Encoding the result returns the original triple
    /// (`lemma_rgb_round_trip`).
    pub fn from_rgb(r: u8, g: u8, b: u8) -> (c: Color)
        ensures
            c.r == decode_channel(r as int),
            c.g == decode_channel(g as int),
            c.b == decode_channel(b as int),
            0 <= c.r <= SCALE && 0 <= c.g <= SCALE && 0 <= c.b <= SCALE,
    {
        Color { r: decode(r), g: decode(g), b: decode(b) }
    }

    /// Componentwise sum.
    pub fn add(self, rhs: Self) -> (c: Self)
        requires
            fits_i64(self.r + rhs.r),
            fits_i64(self.g + rhs.g),
            fits_i64(self.b + rhs.b),
        ensures
            c.r == self.r + rhs.r,
            c.g == self.g + rhs.g,
            c.b == self.b + rhs.b,
    {
        Self { r: self.r + rhs.r, g: self.g + rhs.g, b: self.b + rhs.b }
    }

    /// Componentwise sum, in place.
    pub fn add_assign(&mut self, rhs: Self)
        requires
            fits_i64(old(self).r + rhs.r),
            fits_i64(old(self).g + rhs.g),
            fits_i64(old(self).b + rhs.b),
        ensures
            final(self).r == old(self).r + rhs.r,
            final(self).g == old(self).g + rhs.g,
            final(self).b == old(self).b + rhs.b,
    {
        self.r = self.r + rhs.r;
        self.g = self.g + rhs.g;
        self.b = self.b + rhs.b;
    }

    /// Componentwise fixed-point product: each channel becomes
    /// `a * b / SCALE`, rounding toward zero.
    pub fn mul(self, rhs: Self) -> (c: Self)
        requires
            color_bounded(self, CHANNEL_CAP as int),
            color_bounded(rhs, CHANNEL_CAP as int),
        ensures
            c.r == tdiv(self.r * rhs.r, SCALE as int),
            c.g == tdiv(self.g * rhs.g, SCALE as int),
            c.b == tdiv(self.b * rhs.b, SCALE as int),
    {
        proof {
            lemma_fixed_mul_scaled_bound(self.r as int, rhs.r as int, CHANNEL_CAP as int,
                CHANNEL_CAP as int);
            lemma_fixed_mul_scaled_bound(self.g as int, rhs.g as int, CHANNEL_CAP as int,
                CHANNEL_CAP as int);
            lemma_fixed_mul_scaled_bound(self.b as int, rhs.b as int, CHANNEL_CAP as int,
                CHANNEL_CAP as int);
        }
        let r = div_trunc_wide((self.r as i128) * (rhs.r as i128), SCALE as i128);
        let g = div_trunc_wide((self.g as i128) * (rhs.g as i128), SCALE as i128);
        let b = div_trunc_wide((self.b as i128) * (rhs.b as i128), SCALE as i128);
        Self { r: r as i64, g: g as i64, b: b as i64 }
    }

    /// Scale every channel by a fixed-point scalar in place.
    pub fn mul_assign(&mut self, s: i64)
        requires
            color_bounded(*old(self), CHANNEL_CAP as int),
            -CHANNEL_CAP <= s <= CHANNEL_CAP,
        ensures
            final(self).r == tdiv(old(self).r * s, SCALE as int),
            final(self).g == tdiv(old(self).g * s, SCALE as int),
            final(self).b == tdiv(old(self).b * s, SCALE as int),
    {
        let scaled = self.mul_scalar(s);
        self.r = scaled.r;
        self.g = scaled.g;
        self.b = scaled.b;
    }

    /// Scale every channel by a fixed-point scalar, rounding toward zero.
    pub fn mul_scalar(self, s: i64) -> (c: Self)
        requires
            color_bounded(self, CHANNEL_CAP as int),
            -CHANNEL_CAP <= s <= CHANNEL_CAP,
        ensures
            c.r == tdiv(self.r * s, SCALE as int),
            c.g == tdiv(self.g * s, SCALE as int),
            c.b == tdiv(self.b * s, SCALE as int),
    {
        proof {
            lemma_fixed_mul_scaled_bound(self.r as int, s as int, CHANNEL_CAP as int,
                CHANNEL_CAP as int);
            lemma_fixed_mul_scaled_bound(self.g as int, s as int, CHANNEL_CAP as int,
                CHANNEL_CAP as int);
            lemma_fixed_mul_scaled_bound(self.b as int, s as int, CHANNEL_CAP as int,
                CHANNEL_CAP as int);
        }
        let r = div_trunc_wide((self.r as i128) * (s as i128), SCALE as i128);
        let g = div_trunc_wide((self.g as i128) * (s as i128), SCALE as i128);
        let b = div_trunc_wide((self.b as i128) * (s as i128), SCALE as i128);
        Self { r: r as i64, g: g as i64, b: b as i64 }
    }
}

/// The squared length of a color triple read as a 3-vector.
pub open spec fn color_ls(c: Color) -> int {
    c.r * c.r + c.g * c.g + c.b * c.b
}

/// Clamp one channel to the unit interval.
fn clamp_channel(x: i64) -> (r: i64)
    ensures
        r == clamp_channel_spec(x as int),
{
    if x > SCALE {
        SCALE
    } else if x < 0 {
        0
    } else {
        x
    }
}

/// Encode one clamped channel to 8 bits.
fn encode(c: i64) -> (r: u8)
    requires
        0 <= c <= SCALE,
    ensures
        r == encode_channel(c as int),
{
    let v: u64 = ((c as u64) * 255) / (SCALE as u64);
    proof {
        vstd::arithmetic::div_mod::lemma_div_is_ordered(c as int * 255, SCALE as int * 255,
            SCALE as int);
        crate::lemma_tdiv_exact(255, SCALE as int);
        assert(SCALE as int * 255 == 255 * SCALE as int) by (nonlinear_arith);
        vstd::arithmetic::div_mod::lemma_div_pos_is_pos(c as int * 255, SCALE as int);
    }
    v as u8
}

/// Decode one 8-bit value to a channel in the unit interval.
fn decode(v: u8) -> (r: i64)
    ensures
        r == decode_channel(v as int),
        0 <= r <= SCALE,
{
    let q: u64 = ((v as u64) * 1000 + 254) / 255;
    proof {
        vstd::arithmetic::div_mod::lemma_div_is_ordered(v as int * SCALE + 254,
            255 * SCALE as int + 254, 255);
        vstd::arithmetic::div_mod::lemma_div_pos_is_pos(v as int * SCALE + 254, 255);
        assert((255 * SCALE as int + 254) / 255 == SCALE) by {
            vstd::arithmetic::div_mod::lemma_fundamental_div_mod_converse(
                255 * SCALE as int + 254, 255, SCALE as int, 254);
        }
    }
    q as i64
}

/// Decoding an 8-bit value and encoding the result returns the value:
/// the linear encode/decode pair is a one-sided inverse, exactly.
pub proof fn lemma_rgb_round_trip(v: int)
    requires
        0 <= v <= 255,
    ensures
        encode_channel(decode_channel(v)) == v,
{
    let q = decode_channel(v);
    vstd::arithmetic::div_mod::lemma_fundamental_div_mod(v * SCALE + 254, 255);
    let rem = (v * SCALE + 254) % 255;
    assert(v * SCALE + 254 == 255 * q + rem);
    assert(q * 255 == 255 * q) by (nonlinear_arith);
    assert(q * 255 == v * SCALE + (254 - rem));
    assert(v * SCALE == SCALE as int * v) by (nonlinear_arith);
    vstd::arithmetic::div_mod::lemma_fundamental_div_mod_converse(q * 255, SCALE as int, v,
        254 - rem);
}

} // verus!
