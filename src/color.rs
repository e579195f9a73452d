//! The perceptual colour distance. Luma and chroma are kept exactly as
//! integers scaled by 10^8, so the weighted distance is scaled by 10^20.
use vstd::prelude::*;

use crate::image::Pixel;

verus! {

/// `255 + (c - 255) * (num / den)`, rounded down: channel `c` laid over
/// white at opacity `num / den`.
pub open spec fn blend_spec(c: int, num: int, den: int) -> int {
    (255 * den + (c - 255) * num) / den
}

/// Luma `Y`, times 10^8.
pub open spec fn luma(r: int, g: int, b: int) -> int {
    29889531 * r + 58662247 * g + 11448223 * b
}

/// In-phase chroma `I`, times 10^8.
pub open spec fn in_phase(r: int, g: int, b: int) -> int {
    59597799 * r - 27417610 * g - 32180189 * b
}

/// Quadrature chroma `Q`, times 10^8.
pub open spec fn quadrature(r: int, g: int, b: int) -> int {
    21147017 * r - 52261711 * g + 31114694 * b
}

/// A channel after compositing over white; opaque pixels are left alone.
pub open spec fn composite(c: u8, a: u8) -> int {
    if a < 255 {
        blend_spec(c as int, a as int, 255)
    } else {
        c as int
    }
}

pub open spec fn red_on_white(p: Pixel) -> int {
    composite(p.r, p.a)
}

pub open spec fn green_on_white(p: Pixel) -> int {
    composite(p.g, p.a)
}

pub open spec fn blue_on_white(p: Pixel) -> int {
    composite(p.b, p.a)
}

pub open spec fn luma_on_white(p: Pixel) -> int {
    luma(red_on_white(p), green_on_white(p), blue_on_white(p))
}

pub open spec fn in_phase_on_white(p: Pixel) -> int {
    in_phase(red_on_white(p), green_on_white(p), blue_on_white(p))
}

pub open spec fn quadrature_on_white(p: Pixel) -> int {
    quadrature(red_on_white(p), green_on_white(p), blue_on_white(p))
}

/// The distance between two pixels. With `y_only`, the signed luma
/// difference (times 10^8); otherwise the weighted sum
/// `0.5053 dY^2 + 0.299 dI^2 + 0.1957 dQ^2` (times 10^20).
pub open spec fn delta_spec(p1: Pixel, p2: Pixel, y_only: bool) -> int {
    if p1 == p2 {
        0
    } else {
        let dy = luma_on_white(p1) - luma_on_white(p2);
        let di = in_phase_on_white(p1) - in_phase_on_white(p2);
        let dq = quadrature_on_white(p1) - quadrature_on_white(p2);
        if y_only {
            dy
        } else {
            5053 * (dy * dy) + 2990 * (di * di) + 1957 * (dq * dq)
        }
    }
}

/// The grey level of an unchanged pixel: its luma, rounded, laid over
/// white at a tenth of its own opacity.
pub open spec fn gray_spec(p: Pixel) -> int {
    blend_spec((luma(p.r as int, p.g as int, p.b as int) + 50000000) / 100000000, p.a as int, 2550)
}

fn blend(c: u8, num: u32, den: u32) -> (r: u8)
    requires
        0 < den <= 2550,
        num <= den,
    ensures
        r == blend_spec(c as int, num as int, den as int),
{
    proof {
        assert(0 <= (255 - c as int) * num <= 255 * den) by (nonlinear_arith)
            requires
                c <= 255,
                num <= den,
        ;
        assert((c as int - 255) * num == -((255 - c as int) * num)) by (nonlinear_arith);
        assert((255 * den - (255 - c as int) * num) / (den as int) <= 255) by (nonlinear_arith)
            requires
                0 <= (255 - c as int) * num,
                den > 0,
        ;
    }
    let v: u32 = 255 * den - (255 - c as u32) * num;
    (v / den) as u8
}

fn rgb2y(r: u8, g: u8, b: u8) -> (y: i64)
    ensures
        y == luma(r as int, g as int, b as int),
{
    29889531 * (r as i64) + 58662247 * (g as i64) + 11448223 * (b as i64)
}

fn rgb2i(r: u8, g: u8, b: u8) -> (i: i64)
    ensures
        i == in_phase(r as int, g as int, b as int),
{
    59597799 * (r as i64) - 27417610 * (g as i64) - 32180189 * (b as i64)
}

fn rgb2q(r: u8, g: u8, b: u8) -> (q: i64)
    ensures
        q == quadrature(r as int, g as int, b as int),
{
    21147017 * (r as i64) - 52261711 * (g as i64) + 31114694 * (b as i64)
}

/// The pixel's channels after compositing over white.
fn on_white(p: Pixel) -> (rgb: (u8, u8, u8))
    ensures
        rgb.0 == red_on_white(p),
        rgb.1 == green_on_white(p),
        rgb.2 == blue_on_white(p),
{
    if p.a < 255 {
        (blend(p.r, p.a as u32, 255), blend(p.g, p.a as u32, 255), blend(p.b, p.a as u32, 255))
    } else {
        (p.r, p.g, p.b)
    }
}

/// The distance between two pixels (see `delta_spec` for its scale).
pub fn color_delta(pixel1: Pixel, pixel2: Pixel, y_only: bool) -> (d: i128)
    ensures
        d == delta_spec(pixel1, pixel2, y_only),
{
    if pixel1 == pixel2 {
        return 0;
    }
    let (r1, g1, b1) = on_white(pixel1);
    let (r2, g2, b2) = on_white(pixel2);
    let y: i64 = rgb2y(r1, g1, b1) - rgb2y(r2, g2, b2);
    if y_only {
        return y as i128;
    }
    let i: i64 = rgb2i(r1, g1, b1) - rgb2i(r2, g2, b2);
    let q: i64 = rgb2q(r1, g1, b1) - rgb2q(r2, g2, b2);
    let y: i128 = y as i128;
    let i: i128 = i as i128;
    let q: i128 = q as i128;
    proof {
        assert(y * y <= 25500000255 * 25500000255) by (nonlinear_arith)
            requires
                -25500000255 <= y <= 25500000255,
        ;
        assert(i * i <= 30394877490 * 30394877490) by (nonlinear_arith)
            requires
                -30394877490 <= i <= 30394877490,
        ;
        assert(q * q <= 26653472610 * 26653472610) by (nonlinear_arith)
            requires
                -26653472610 <= q <= 26653472610,
        ;
        assert(0 <= y * y && 0 <= i * i && 0 <= q * q) by (nonlinear_arith);
    }
    5053 * (y * y) + 2990 * (i * i) + 1957 * (q * q)
}

/// The grey level that an unchanged pixel is drawn with.
pub fn gray_pixel(pixel: Pixel) -> (v: u8)
    ensures
        v == gray_spec(pixel),
{
    let y: i64 = rgb2y(pixel.r, pixel.g, pixel.b);
    let rounded: i64 = (y + 50000000) / 100000000;
    blend(rounded as u8, pixel.a as u32, 2550)
}

/// Swapping the pixels leaves the full distance unchanged and negates the
/// luma-only one.
pub proof fn lemma_delta_symmetric(a: Pixel, b: Pixel)
    ensures
        delta_spec(a, b, false) == delta_spec(b, a, false),
        delta_spec(a, b, true) == -delta_spec(b, a, true),
{
    let dy = luma_on_white(a) - luma_on_white(b);
    let di = in_phase_on_white(a) - in_phase_on_white(b);
    let dq = quadrature_on_white(a) - quadrature_on_white(b);
    assert((-dy) * (-dy) == dy * dy) by (nonlinear_arith);
    assert((-di) * (-di) == di * di) by (nonlinear_arith);
    assert((-dq) * (-dq) == dq * dq) by (nonlinear_arith);
}

/// The full distance is zero exactly when both pixels, composited over
/// white, have the same red, green and blue.
pub proof fn lemma_delta_zero_iff_same_on_white(a: Pixel, b: Pixel)
    ensures
        delta_spec(a, b, false) == 0 <==> (red_on_white(a) == red_on_white(b)
            && green_on_white(a) == green_on_white(b) && blue_on_white(a) == blue_on_white(b)),
{
    if a != b {
        let dr = red_on_white(a) - red_on_white(b);
        let dg = green_on_white(a) - green_on_white(b);
        let db = blue_on_white(a) - blue_on_white(b);
        let dy = luma_on_white(a) - luma_on_white(b);
        let di = in_phase_on_white(a) - in_phase_on_white(b);
        let dq = quadrature_on_white(a) - quadrature_on_white(b);
        assert(dy == 29889531 * dr + 58662247 * dg + 11448223 * db);
        assert(di == 59597799 * dr - 27417610 * dg - 32180189 * db);
        assert(dq == 21147017 * dr - 52261711 * dg + 31114694 * db);
        assert(0 <= dy * dy && 0 <= di * di && 0 <= dq * dq) by (nonlinear_arith);
        assert(dy * dy == 0 ==> dy == 0) by (nonlinear_arith);
        assert(di * di == 0 ==> di == 0) by (nonlinear_arith);
        assert(dq * dq == 0 ==> dq == 0) by (nonlinear_arith);
        if dy == 0 && di == 0 && dq == 0 {
            assert(dr == 0 && dg == 0 && db == 0);
        }
    }
}

} // verus!
