//! Classifying a differing pixel as an anti-aliased edge. The eight
//! neighbours of `(x, y)` are numbered `k` in `0..9`, skipping the centre
//! `4`: neighbour `k` sits at `(x + k / 3 - 1, y + k % 3 - 1)`.
use vstd::prelude::*;

use crate::color::{color_delta, delta_spec};
use crate::image::{Image, Pixel};

verus! {

pub open spec fn neighbor_x(x: int, k: int) -> int {
    x + k / 3 - 1
}

pub open spec fn neighbor_y(y: int, k: int) -> int {
    y + k % 3 - 1
}

/// How many of the neighbours numbered below `n` equal the pixel at `(x, y)`.
pub open spec fn sibling_count(img: Image, x: int, y: int, n: nat) -> nat
    decreases n,
{
    if n == 0 {
        0
    } else {
        let k = n - 1;
        sibling_count(img, x, y, (n - 1) as nat) + if k != 4 && img.pixel(neighbor_x(x, k), neighbor_y(y, k))
            == img.pixel(x, y) {
            1nat
        } else {
            0nat
        }
    }
}

/// An inner pixel with more than two neighbours exactly equal to it.
pub open spec fn has_many_siblings_spec(img: Image, x: int, y: int) -> bool {
    !img.on_border(x, y) && sibling_count(img, x, y, 9) > 2
}

/// Signed luma difference between the centre of `reference` and
/// neighbour `k` of it in `other`.
pub open spec fn neighbor_delta(reference: Image, other: Image, x: int, y: int, k: int) -> int {
    delta_spec(reference.pixel(x, y), other.pixel(neighbor_x(x, k), neighbor_y(y, k)), true)
}

/// How many of the neighbours numbered below `n` have a zero luma difference.
pub open spec fn zero_count(reference: Image, other: Image, x: int, y: int, n: nat) -> nat
    decreases n,
{
    if n == 0 {
        0
    } else {
        let k = n - 1;
        zero_count(reference, other, x, y, (n - 1) as nat) + if k != 4 && neighbor_delta(
            reference,
            other,
            x,
            y,
            k,
        ) == 0 {
            1nat
        } else {
            0nat
        }
    }
}

/// The first neighbour below `n` with the most negative luma difference,
/// or `-1` if none is negative.
pub open spec fn first_min(reference: Image, other: Image, x: int, y: int, n: nat) -> int
    decreases n,
{
    if n == 0 {
        -1
    } else {
        let k = n - 1;
        let best = first_min(reference, other, x, y, (n - 1) as nat);
        let least = if best < 0 {
            0
        } else {
            neighbor_delta(reference, other, x, y, best)
        };
        if k != 4 && neighbor_delta(reference, other, x, y, k) < least {
            k
        } else {
            best
        }
    }
}

/// The first neighbour below `n` with the most positive luma difference,
/// or `-1` if none is positive.
pub open spec fn first_max(reference: Image, other: Image, x: int, y: int, n: nat) -> int
    decreases n,
{
    if n == 0 {
        -1
    } else {
        let k = n - 1;
        let best = first_max(reference, other, x, y, (n - 1) as nat);
        let most = if best < 0 {
            0
        } else {
            neighbor_delta(reference, other, x, y, best)
        };
        if k != 4 && neighbor_delta(reference, other, x, y, k) > most {
            k
        } else {
            best
        }
    }
}

/// Neighbour `k` of `(x, y)` has many siblings in both images.
pub open spec fn sibling_in_both(reference: Image, other: Image, x: int, y: int, k: int) -> bool {
    has_many_siblings_spec(reference, neighbor_x(x, k), neighbor_y(y, k))
        && has_many_siblings_spec(other, neighbor_x(x, k), neighbor_y(y, k))
}

/// Whether `(x, y)` of `reference` looks like an anti-aliased edge when its
/// neighbours are taken from `other`.
pub open spec fn is_antialiased_spec(reference: Image, other: Image, x: int, y: int) -> bool {
    if reference.on_border(x, y) {
        false
    } else if zero_count(reference, other, x, y, 9) > 2 {
        true
    } else {
        let lo = first_min(reference, other, x, y, 9);
        let hi = first_max(reference, other, x, y, 9);
        if lo < 0 || hi < 0 {
            false
        } else {
            sibling_in_both(reference, other, x, y, lo) || sibling_in_both(reference, other, x, y, hi)
        }
    }
}

/// Whether more than two neighbours of the inner pixel `(x, y)` equal it.
pub fn has_many_siblings(img: &Image, x: u32, y: u32) -> (r: bool)
    requires
        img.wf(),
        img.in_bounds(x as int, y as int),
    ensures
        r == has_many_siblings_spec(*img, x as int, y as int),
{
    if x == 0 || x == img.width - 1 || y == 0 || y == img.height - 1 {
        return false;
    }
    let center: Pixel = img.get_pixel(x, y);
    let mut zeroes: u32 = 0;
    let mut k: u32 = 0;
    while k < 9
        invariant
            k <= 9,
            zeroes <= k,
            zeroes == sibling_count(*img, x as int, y as int, k as nat),
            img.wf(),
            1 <= x < img.width - 1,
            1 <= y < img.height - 1,
            center == img.pixel(x as int, y as int),
        decreases 9 - k,
    {
        if k != 4 {
            let n: Pixel = img.get_pixel(x - 1 + k / 3, y - 1 + k % 3);
            if n == center {
                zeroes = zeroes + 1;
            }
        }
        k = k + 1;
    }
    zeroes > 2
}

/// Whether `(x, y)` of `reference` looks like an anti-aliased edge, judged
/// by the luma of its neighbours in `other`.
pub fn is_antialiased(reference: &Image, other: &Image, x: u32, y: u32) -> (r: bool)
    requires
        reference.wf(),
        other.wf(),
        reference.width == other.width,
        reference.height == other.height,
        reference.in_bounds(x as int, y as int),
    ensures
        r == is_antialiased_spec(*reference, *other, x as int, y as int),
{
    if x == 0 || x == reference.width - 1 || y == 0 || y == reference.height - 1 {
        return false;
    }
    let ghost r = *reference;
    let ghost o = *other;
    let center: Pixel = reference.get_pixel(x, y);
    let mut zeroes: u32 = 0;
    let mut min: i128 = 0;
    let mut max: i128 = 0;
    let mut min_k: i32 = -1;
    let mut max_k: i32 = -1;
    let mut k: u32 = 0;
    while k < 9
        invariant
            k <= 9,
            zeroes <= k,
            reference.wf(),
            other.wf(),
            reference.width == other.width,
            reference.height == other.height,
            1 <= x < reference.width - 1,
            1 <= y < reference.height - 1,
            r == *reference,
            o == *other,
            center == reference.pixel(x as int, y as int),
            zeroes == zero_count(r, o, x as int, y as int, k as nat),
            min_k == first_min(r, o, x as int, y as int, k as nat),
            max_k == first_max(r, o, x as int, y as int, k as nat),
            -1 <= min_k < k,
            -1 <= max_k < k,
            min_k < 0 ==> min == 0,
            min_k >= 0 ==> min == neighbor_delta(r, o, x as int, y as int, min_k as int) && min < 0,
            max_k < 0 ==> max == 0,
            max_k >= 0 ==> max == neighbor_delta(r, o, x as int, y as int, max_k as int) && max > 0,
        decreases 9 - k,
    {
        if k != 4 {
            let n: Pixel = other.get_pixel(x - 1 + k / 3, y - 1 + k % 3);
            let delta: i128 = color_delta(center, n, true);
            if delta == 0 {
                zeroes = zeroes + 1;
            } else if delta < min {
                min = delta;
                min_k = k as i32;
            } else if delta > max {
                max = delta;
                max_k = k as i32;
            }
        }
        k = k + 1;
    }
    if zeroes > 2 {
        return true;
    }
    if max == 0 || min == 0 {
        return false;
    }
    let lo: u32 = min_k as u32;
    let hi: u32 = max_k as u32;
    (has_many_siblings(reference, x - 1 + lo / 3, y - 1 + lo % 3) && has_many_siblings(
        other,
        x - 1 + lo / 3,
        y - 1 + lo % 3,
    )) || (has_many_siblings(reference, x - 1 + hi / 3, y - 1 + hi % 3) && has_many_siblings(
        other,
        x - 1 + hi / 3,
        y - 1 + hi % 3,
    ))
}

/// No border pixel is ever taken for an anti-aliased edge.
pub proof fn lemma_border_not_antialiased(reference: Image, other: Image, x: int, y: int)
    requires
        reference.on_border(x, y),
    ensures
        !is_antialiased_spec(reference, other, x, y),
{
}

} // verus!
