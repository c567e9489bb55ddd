//! The Luma colour model: one channel of luminance.
//!
//! The luminance of an RGB pixel is the square root of the weighted sum of
//! its squared channels, with the weights 0.299, 0.587 and 0.114, to the
//! nearest whole number. For 8-bit channels it is computed here in
//! integers that stand for numbers of 53 significant binary digits, with
//! the roundings of double-precision arithmetic.

use crate::rounding::{
    floor_root, is_floor_root, lemma_floor_root_exists, lemma_floor_root_unique,
    lemma_rounded_near, lemma_squares_grow, round, root_floor, rounded, rounded_root,
    DIGITS_END, ROOT_SCALE,
};
use vstd::prelude::*;

verus! {

/// The Luma pixel.
#[derive(Copy, Clone, Debug, Default, PartialEq, PartialOrd, Eq, Hash, Ord)]
pub struct Luma<T> {
    pub luminance: T,
}

/// `out` is what `From::from` makes of `value`.
pub open spec fn converts<T, N: From<T>>(value: T, out: N) -> bool {
    call_ensures(N::from, (value,), out)
}

impl<T> Luma<T> {
    /// Creates a Luma pixel from its luminance, which is taken as it is.
    pub fn new(luminance: T) -> (pixel: Luma<T>)
        ensures
            pixel == (Luma { luminance }),
    {
        Luma { luminance }
    }

    /// `rgb_pixel` holds in each channel what `From::from` makes of the
    /// luminance of `luma_pixel`.
    pub open spec fn replicated<N: From<T>>(luma_pixel: Luma<T>, rgb_pixel: rgb::RGB<N>) -> bool {
        &&& converts(luma_pixel.luminance, rgb_pixel.r)
        &&& converts(luma_pixel.luminance, rgb_pixel.g)
        &&& converts(luma_pixel.luminance, rgb_pixel.b)
    }

    /// Converts a Luma pixel into an RGB pixel: each of the three channels is
    /// the luminance, converted into the channel type `N` by `From::from`.
    /// Where `N` is the type of the luminance, the channels are the
    /// luminance itself (`lemma_replicated_in_kind`).
    pub fn to_rgb<N: From<T>>(luma_pixel: Luma<T>) -> (rgb_pixel: rgb::RGB<N>)
        where
            T: Copy,
        ensures
            Self::replicated(luma_pixel, rgb_pixel),
    {
        rgb::RGB {
            r: luma_pixel.luminance.into(),
            g: luma_pixel.luminance.into(),
            b: luma_pixel.luminance.into(),
        }
    }
}

/// The weight of red, 0.299, as the nearest number of 53 digits, in units
/// of 2^-56.
pub const RED_WEIGHT: u128 = 21545220617340452;

/// The weight of green, 0.587, in the same way.
pub const GREEN_WEIGHT: u128 = 42297807700263696;

/// The weight of blue, 0.114, in the same way.
pub const BLUE_WEIGHT: u128 = 8214565720323785;

/// One, in units of 2^-56.
pub const ONE: u128 = 72057594037927936;

/// A half, in units of 2^-56.
pub const HALF: u128 = 36028797018963968;

/// The weighted sum of the squared channels, in units of 2^-56: each
/// product is rounded, then the sum of red and green, then the sum of that
/// and blue.
pub open spec fn weighted_squares(r: int, g: int, b: int) -> int {
    let red = rounded(RED_WEIGHT * (r * r));
    let green = rounded(GREEN_WEIGHT * (g * g));
    let blue = rounded(BLUE_WEIGHT * (b * b));
    rounded(rounded(red + green) + blue)
}

/// The whole number nearest to `x` units of 2^-56, a tie away from zero.
pub open spec fn nearest_whole(x: int) -> int {
    (x + HALF) / (ONE as int)
}

/// The luminance of the 8-bit pixel `(r, g, b)`: the rounded root of the
/// weighted sum of its squared channels, to the nearest whole number and
/// at most 255.
pub open spec fn luminance_of(r: u8, g: u8, b: u8) -> u8 {
    let nearest = nearest_whole(rounded_root(weighted_squares(r as int, g as int, b as int)));
    if nearest > 255 {
        255u8
    } else {
        nearest as u8
    }
}

/// `level` is what `Into::into` makes of `value`.
pub open spec fn narrows<N: Into<u8>>(value: N, level: u8) -> bool {
    call_ensures(N::into, (value,), level)
}

impl Luma<u8> {
    /// The Luma pixel of an 8-bit RGB pixel.
    pub open spec fn spec_from_rgb(rgb_pixel: rgb::RGB<u8>) -> Luma<u8> {
        Luma { luminance: luminance_of(rgb_pixel.r, rgb_pixel.g, rgb_pixel.b) }
    }

    /// `luma_pixel` is the Luma pixel of the 8-bit levels that `Into::into`
    /// makes of the channels of `rgb_pixel`.
    pub open spec fn is_luma_of<N: Into<u8>>(rgb_pixel: rgb::RGB<N>, luma_pixel: Luma<u8>) -> bool {
        exists|levels: rgb::RGB<u8>|
            {
                &&& narrows(rgb_pixel.r, levels.r)
                &&& narrows(rgb_pixel.g, levels.g)
                &&& narrows(rgb_pixel.b, levels.b)
                &&& luma_pixel == #[trigger] Self::spec_from_rgb(levels)
            }
    }

    /// Converts an RGB pixel of 8-bit channels into a Luma pixel: the
    /// luminance is the root of the weighted sum of the squared channels, to
    /// the nearest whole number. Products, sums and root are rounded to 53
    /// significant digits one after the other, as double-precision
    /// arithmetic rounds them, so that the result is the one of that
    /// arithmetic on every pixel. Where `N` is `u8`, the result is
    /// `spec_from_rgb` of the pixel (`lemma_luma_of_levels`).
    pub fn from_rgb<N: Into<u8>>(rgb_pixel: rgb::RGB<N>) -> (luma_pixel: Luma<u8>)
        ensures
            Self::is_luma_of(rgb_pixel, luma_pixel),
    {
        let levels = rgb::RGB {
            r: rgb_pixel.r.into(),
            g: rgb_pixel.g.into(),
            b: rgb_pixel.b.into(),
        };
        let luma_pixel = Luma { luminance: luminance(levels.r, levels.g, levels.b) };
        assert(luma_pixel == Self::spec_from_rgb(levels));
        luma_pixel
    }
}

/// The luminance of the 8-bit pixel `(red, green, blue)`.
fn luminance(red: u8, green: u8, blue: u8) -> (nearest: u8)
    ensures
        nearest == luminance_of(red, green, blue),
{
    let r: u128 = red as u128;
    let g: u128 = green as u128;
    let b: u128 = blue as u128;
    proof {
        lemma_square_of_level(r as int);
        lemma_square_of_level(g as int);
        lemma_square_of_level(b as int);
        lemma_rounded_near(RED_WEIGHT * (r * r));
        lemma_rounded_near(GREEN_WEIGHT * (g * g));
        lemma_rounded_near(BLUE_WEIGHT * (b * b));
    }
    let red_part: u128 = round(RED_WEIGHT * (r * r));
    let green_part: u128 = round(GREEN_WEIGHT * (g * g));
    let blue_part: u128 = round(BLUE_WEIGHT * (b * b));
    proof {
        lemma_rounded_near(red_part + green_part);
    }
    let first: u128 = round(red_part + green_part);
    proof {
        lemma_rounded_near(first + blue_part);
    }
    let sum: u128 = round(first + blue_part);
    let floor: u128 = root_floor(sum * ROOT_SCALE);
    let lost: u128 = if floor * floor == sum * ROOT_SCALE { 0 } else { 1 };
    proof {
        lemma_rounded_near(2 * floor + lost);
    }
    let root: u128 = round(2 * floor + lost);
    let nearest: u128 = (root + HALF) / ONE;
    if nearest > 255 {
        255
    } else {
        nearest as u8
    }
}

/// Of a pixel whose channels are 8-bit levels already, the Luma pixel is
/// that of the channels themselves.
pub proof fn lemma_luma_of_levels(rgb_pixel: rgb::RGB<u8>, luma_pixel: Luma<u8>)
    requires
        Luma::is_luma_of(rgb_pixel, luma_pixel),
    ensures
        luma_pixel == Luma::spec_from_rgb(rgb_pixel),
{
    let levels = choose|levels: rgb::RGB<u8>|
        {
            &&& narrows(rgb_pixel.r, levels.r)
            &&& narrows(rgb_pixel.g, levels.g)
            &&& narrows(rgb_pixel.b, levels.b)
            &&& luma_pixel == #[trigger] Luma::spec_from_rgb(levels)
        };
    assert(levels == rgb_pixel);
}

/// The square of an 8-bit level is at most that of 255, and lies between
/// the level and 255 times the level.
proof fn lemma_square_of_level(level: int)
    requires
        0 <= level <= 255,
    ensures
        level <= level * level <= 255 * level,
        level * level <= 65025,
{
    assert(level <= level * level <= 255 * level) by (nonlinear_arith)
        requires
            0 <= level <= 255,
    ;
}

/// Between which limits the weighted sum of the squares of three equal
/// levels lies: the weights add up to one, less 3 units, and the five
/// roundings move the sum by little.
proof fn lemma_grey_weighted_squares(level: int)
    requires
        0 <= level <= 255,
    ensures
        (ONE - 64) * (level * level) <= weighted_squares(level, level, level),
        weighted_squares(level, level, level) <= (ONE + 64) * (level * level),
{
    let square = level * level;
    lemma_square_of_level(level);
    lemma_rounded_near(RED_WEIGHT * square);
    lemma_rounded_near(GREEN_WEIGHT * square);
    lemma_rounded_near(BLUE_WEIGHT * square);
    let red = rounded(RED_WEIGHT * square);
    let green = rounded(GREEN_WEIGHT * square);
    let blue = rounded(BLUE_WEIGHT * square);
    lemma_rounded_near(red + green);
    lemma_rounded_near(rounded(red + green) + blue);
}

/// The square of `(4 * level + side) * 2^53`, for `side` 1 or -1.
proof fn lemma_quarter_square(level: int, side: int)
    requires
        side == 1 || side == -1,
    ensures
        ((4 * level + side) * DIGITS_END) * ((4 * level + side) * DIGITS_END) == (16 * (level
            * level) + 8 * side * level + 1) * 0x400_0000_0000_0000_0000_0000_0000,
{
    let end = DIGITS_END as int;
    let number = 4 * level + side;
    assert(number * number == 16 * (level * level) + 8 * side * level + 1) by (nonlinear_arith)
        requires
            number == 4 * level + side,
            side == 1 || side == -1,
    ;
    assert((number * end) * (number * end) == (number * number) * (end * end))
        by (nonlinear_arith);
    assert(end * end == 0x400_0000_0000_0000_0000_0000_0000) by (nonlinear_arith)
        requires
            end == 9007199254740992,
    ;
}

/// A pixel whose three channels are `level` has the luminance `level`.
pub proof fn lemma_grey_luminance(level: u8)
    ensures
        luminance_of(level, level, level) == level,
{
    let l = level as int;
    let sum = weighted_squares(l, l, l);
    lemma_square_of_level(l);
    lemma_grey_weighted_squares(l);
    let scaled = sum * ROOT_SCALE;
    lemma_floor_root_exists(scaled);
    let floor = floor_root(scaled);
    let lost: int = if floor * floor == scaled { 0 } else { 1 };
    lemma_rounded_near(2 * floor + lost);
    if l == 0 {
        assert(floor == 0) by {
            assert(is_floor_root(0, 0));
            lemma_floor_root_unique(0, 0, floor);
        }
    } else {
        let below = (4 * l - 1) * DIGITS_END;
        let above = (4 * l + 1) * DIGITS_END;
        lemma_quarter_square(l, -1);
        lemma_quarter_square(l, 1);
        if floor < below {
            lemma_squares_grow(floor + 1, below);
        }
        if floor >= above {
            lemma_squares_grow(above, floor);
        }
        assert(below <= floor < above);
    }
}

/// Where the channels have the type of the luminance, all three are the
/// luminance itself.
pub proof fn lemma_replicated_in_kind<T>(luma_pixel: Luma<T>, rgb_pixel: rgb::RGB<T>)
    requires
        Luma::replicated(luma_pixel, rgb_pixel),
    ensures
        rgb_pixel.r == luma_pixel.luminance,
        rgb_pixel.g == luma_pixel.luminance,
        rgb_pixel.b == luma_pixel.luminance,
{
}

/// Converting an 8-bit Luma pixel to RGB and back gives the pixel itself:
/// whatever `to_rgb` makes of `luma_pixel`, `from_rgb` makes `luma_pixel`
/// of it.
pub proof fn lemma_luma_round_trip(luma_pixel: Luma<u8>, rgb_pixel: rgb::RGB<u8>, back: Luma<u8>)
    requires
        Luma::replicated(luma_pixel, rgb_pixel),
        Luma::is_luma_of(rgb_pixel, back),
    ensures
        back == luma_pixel,
{
    lemma_replicated_in_kind(luma_pixel, rgb_pixel);
    lemma_luma_of_levels(rgb_pixel, back);
    lemma_grey_luminance(luma_pixel.luminance);
}

} // verus!
