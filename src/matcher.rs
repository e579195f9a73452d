//! The comparison itself: every pixel is judged, drawn into the output
//! image, and counted when it really differs.
use vstd::prelude::*;

use vstd::arithmetic::div_mod::lemma_fundamental_div_mod_converse;

use crate::antialias::{is_antialiased, is_antialiased_spec};
use crate::color::{
    blue_on_white, color_delta, delta_spec, gray_pixel, gray_spec, green_on_white,
    lemma_delta_zero_iff_same_on_white, red_on_white,
};
use crate::errors::Error;
use crate::image::{lemma_index_in_grid, Image, Pixel};

verus! {

/// `35215 * threshold^2` on the 10^20 scale of `delta_spec`, with the
/// threshold given in millionths (`threshold_ppm / 10^6`).
pub open spec fn max_delta(threshold_ppm: u32) -> int {
    35215 * (threshold_ppm * threshold_ppm) * 100000000
}

/// The pixel at `(x, y)` looks like an anti-aliased edge in either image.
pub open spec fn antialiased_either(img1: Image, img2: Image, x: int, y: int) -> bool {
    is_antialiased_spec(img1, img2, x, y) || is_antialiased_spec(img2, img1, x, y)
}

/// The full distance at `(x, y)` is above the cutoff.
pub open spec fn exceeds(img1: Image, img2: Image, threshold_ppm: u32, x: int, y: int) -> bool {
    delta_spec(img1.pixel(x, y), img2.pixel(x, y), false) > max_delta(threshold_ppm)
}

/// The pixel at `(x, y)` is a real difference: above the cutoff, and not
/// excused as anti-aliasing (unless anti-aliased pixels are included).
pub open spec fn counts_as_diff(
    img1: Image,
    img2: Image,
    threshold_ppm: u32,
    include_aa: bool,
    x: int,
    y: int,
) -> bool {
    exceeds(img1, img2, threshold_ppm, x, y) && (include_aa || !antialiased_either(img1, img2, x, y))
}

/// The unchanged pixel `p`, drawn as an opaque dimmed grey.
pub open spec fn gray_of(p: Pixel) -> Pixel {
    let v = gray_spec(p) as u8;
    Pixel { r: v, g: v, b: v, a: 255 }
}

/// What the output image holds at `(x, y)`: red for a real difference,
/// yellow for an excused anti-aliased one, grey otherwise.
pub open spec fn rendered(
    img1: Image,
    img2: Image,
    threshold_ppm: u32,
    include_aa: bool,
    x: int,
    y: int,
) -> Pixel {
    if exceeds(img1, img2, threshold_ppm, x, y) {
        if counts_as_diff(img1, img2, threshold_ppm, include_aa, x, y) {
            Pixel { r: 255, g: 0, b: 0, a: 255 }
        } else {
            Pixel { r: 255, g: 255, b: 0, a: 255 }
        }
    } else {
        gray_of(img1.pixel(x, y))
    }
}

/// How many of the first `n` pixels, in row-major order, are real differences.
pub open spec fn diff_count(img1: Image, img2: Image, threshold_ppm: u32, include_aa: bool, n: nat) -> nat
    decreases n,
{
    if n == 0 {
        0
    } else {
        let i = n - 1;
        diff_count(img1, img2, threshold_ppm, include_aa, (n - 1) as nat) + if counts_as_diff(
            img1,
            img2,
            threshold_ppm,
            include_aa,
            i % img1.width as int,
            i / img1.width as int,
        ) {
            1nat
        } else {
            0nat
        }
    }
}

/// The number of real differences over the whole image.
pub open spec fn total_diff(img1: Image, img2: Image, threshold_ppm: u32, include_aa: bool) -> nat {
    diff_count(img1, img2, threshold_ppm, include_aa, (img1.width * img1.height) as nat)
}

pub proof fn lemma_row_major(x: int, y: int, width: int)
    requires
        0 <= x < width,
        0 <= y,
    ensures
        (y * width + x) % width == x,
        (y * width + x) / width == y,
{
    lemma_fundamental_div_mod_converse(y * width + x, width, y, x);
}

fn draw_pixel(out: &mut Image, x: u32, y: u32, r: u8, g: u8, b: u8)
    requires
        old(out).wf(),
        old(out).in_bounds(x as int, y as int),
    ensures
        final(out).wf(),
        final(out).width == old(out).width,
        final(out).height == old(out).height,
        final(out).pixels@ == old(out).pixels@.update(y * old(out).width + x, Pixel { r, g, b, a: 255 }),
{
    out.put_pixel(x, y, Pixel { r, g, b, a: 255 })
}

/// Compares `img1` (before) with `img2` (after), draws the verdict for each
/// pixel into `out`, and returns the number of real differences. The
/// threshold is given in millionths, so `100_000` stands for `0.1`. Images
/// of different sizes are refused before anything is drawn.
pub fn match_pixel(img1: &Image, img2: &Image, out: &mut Image, threshold_ppm: u32, include_aa: bool) -> (r:
    Result<u32, Error>)
    requires
        img1.wf(),
        img2.wf(),
        old(out).wf(),
        old(out).width == img1.width,
        old(out).height == img1.height,
        img1.width * img1.height <= u32::MAX,
    ensures
        img1.width != img2.width || img1.height != img2.height ==> r == Err::<u32, Error>(
            Error::SizeUnmatch {
                before: (img1.width, img1.height),
                after: (img2.width, img2.height),
            },
        ) && *final(out) == *old(out),
        img1.width == img2.width && img1.height == img2.height ==> {
            &&& r == Ok::<u32, Error>(total_diff(*img1, *img2, threshold_ppm, include_aa) as u32)
            &&& final(out).wf()
            &&& final(out).width == img1.width
            &&& final(out).height == img1.height
            &&& forall|x: int, y: int|
                img1.in_bounds(x, y) ==> final(out).pixel(x, y) == rendered(
                    *img1,
                    *img2,
                    threshold_ppm,
                    include_aa,
                    x,
                    y,
                )
        },
{
    if img1.width != img2.width || img1.height != img2.height {
        return Err(
            Error::SizeUnmatch {
                before: (img1.width, img1.height),
                after: (img2.width, img2.height),
            },
        );
    }
    proof {
        assert(threshold_ppm * threshold_ppm <= u32::MAX as int * u32::MAX as int) by (nonlinear_arith)
            requires
                threshold_ppm <= u32::MAX,
        ;
        assert(0 <= threshold_ppm * threshold_ppm) by (nonlinear_arith);
    }
    let t: i128 = threshold_ppm as i128;
    let cutoff: i128 = 35215 * (t * t) * 100000000;
    let n: usize = img1.pixels.len();
    let w: u32 = img1.width;
    proof {
        assert(n > 0 ==> w > 0) by (nonlinear_arith)
            requires
                n == w * img1.height,
        ;
    }
    let ghost a = *img1;
    let ghost b = *img2;
    let mut diff: u32 = 0;
    let mut i: usize = 0;
    let mut x: u32 = 0;
    let mut y: u32 = 0;
    while i < n
        invariant
            a == *img1,
            b == *img2,
            img1.wf(),
            img2.wf(),
            img1.width == img2.width,
            img1.height == img2.height,
            w == img1.width,
            n == img1.pixels@.len(),
            n <= u32::MAX,
            cutoff == max_delta(threshold_ppm),
            out.wf(),
            out.width == w,
            out.height == img1.height,
            i <= n,
            i == y * w + x,
            i < n ==> x < w,
            n > 0 ==> w > 0,
            diff <= i,
            diff == diff_count(a, b, threshold_ppm, include_aa, i as nat),
            forall|j: int|
                0 <= j < i ==> out.pixels@[j] == rendered(
                    a,
                    b,
                    threshold_ppm,
                    include_aa,
                    j % w as int,
                    j / w as int,
                ),
        decreases n - i,
    {
        proof {
            assert(y < img1.height) by (nonlinear_arith)
                requires
                    y * w <= i,
                    i < n,
                    n == w * img1.height,
            ;
            lemma_row_major(x as int, y as int, w as int);
        }
        let p1: Pixel = img1.get_pixel(x, y);
        let p2: Pixel = img2.get_pixel(x, y);
        let delta: i128 = color_delta(p1, p2, false);
        if delta > cutoff {
            if !include_aa && (is_antialiased(img1, img2, x, y) || is_antialiased(img2, img1, x, y)) {
                draw_pixel(out, x, y, 255, 255, 0);
            } else {
                draw_pixel(out, x, y, 255, 0, 0);
                diff = diff + 1;
            }
        } else {
            let val: u8 = gray_pixel(p1);
            draw_pixel(out, x, y, val, val, val);
        }
        i = i + 1;
        if x + 1 == w {
            proof {
                assert((y + 1) * w == y * w + w) by (nonlinear_arith);
            }
            x = 0;
            y = y + 1;
        } else {
            x = x + 1;
        }
    }
    proof {
        assert forall|x: int, y: int| img1.in_bounds(x, y) implies out.pixel(x, y) == rendered(
            a,
            b,
            threshold_ppm,
            include_aa,
            x,
            y,
        ) by {
            lemma_index_in_grid(x, y, w as int, img1.height as int);
            lemma_row_major(x, y, w as int);
        }
    }
    Ok(diff)
}

/// Comparing an image with itself finds no difference, and every pixel is
/// drawn as its own dimmed grey.
pub proof fn lemma_identity(img: Image, threshold_ppm: u32, include_aa: bool)
    requires
        img.wf(),
    ensures
        total_diff(img, img, threshold_ppm, include_aa) == 0,
        forall|x: int, y: int|
            img.in_bounds(x, y) ==> rendered(img, img, threshold_ppm, include_aa, x, y) == gray_of(
                img.pixel(x, y),
            ),
{
    assert(0 <= threshold_ppm * threshold_ppm) by (nonlinear_arith);
    lemma_identity_prefix(img, threshold_ppm, include_aa, (img.width * img.height) as nat);
}

proof fn lemma_identity_prefix(img: Image, threshold_ppm: u32, include_aa: bool, n: nat)
    requires
        0 <= threshold_ppm * threshold_ppm,
    ensures
        diff_count(img, img, threshold_ppm, include_aa, n) == 0,
    decreases n,
{
    if n > 0 {
        lemma_identity_prefix(img, threshold_ppm, include_aa, (n - 1) as nat);
    }
}

/// Raising the threshold never raises the number of differences.
pub proof fn lemma_threshold_monotonic(img1: Image, img2: Image, low: u32, high: u32, include_aa: bool)
    requires
        low <= high,
    ensures
        total_diff(img1, img2, high, include_aa) <= total_diff(img1, img2, low, include_aa),
{
    assert(low * low <= high * high) by (nonlinear_arith)
        requires
            0 <= low <= high,
    ;
    lemma_threshold_monotonic_prefix(img1, img2, low, high, include_aa, (img1.width * img1.height) as nat);
}

proof fn lemma_threshold_monotonic_prefix(
    img1: Image,
    img2: Image,
    low: u32,
    high: u32,
    include_aa: bool,
    n: nat,
)
    requires
        max_delta(low) <= max_delta(high),
    ensures
        diff_count(img1, img2, high, include_aa, n) <= diff_count(img1, img2, low, include_aa, n),
    decreases n,
{
    if n > 0 {
        lemma_threshold_monotonic_prefix(img1, img2, low, high, include_aa, (n - 1) as nat);
    }
}

/// A pixel whose two versions, composited over white, have the same red,
/// green and blue (a fully transparent one against opaque white, say) is
/// never counted, and is drawn grey.
pub proof fn lemma_same_on_white_not_counted(
    img1: Image,
    img2: Image,
    threshold_ppm: u32,
    include_aa: bool,
    x: int,
    y: int,
)
    requires
        red_on_white(img1.pixel(x, y)) == red_on_white(img2.pixel(x, y)),
        green_on_white(img1.pixel(x, y)) == green_on_white(img2.pixel(x, y)),
        blue_on_white(img1.pixel(x, y)) == blue_on_white(img2.pixel(x, y)),
    ensures
        delta_spec(img1.pixel(x, y), img2.pixel(x, y), false) == 0,
        !counts_as_diff(img1, img2, threshold_ppm, include_aa, x, y),
        rendered(img1, img2, threshold_ppm, include_aa, x, y) == gray_of(img1.pixel(x, y)),
{
    lemma_delta_zero_iff_same_on_white(img1.pixel(x, y), img2.pixel(x, y));
    assert(0 <= threshold_ppm * threshold_ppm) by (nonlinear_arith);
}

} // verus!
