//! Arithmetic on binary fractions that keep 53 significant digits.
//!
//! A number is held as an integer that counts units of 2^-56. A sum or a
//! product is first taken exactly and then rounded to the nearest number of
//! 53 significant binary digits, a tie to the one whose last digit is even:
//! the rounding of double-precision arithmetic, for numbers in its normal
//! range.

use vstd::arithmetic::div_mod::{lemma_div_denominator, lemma_fundamental_div_mod, lemma_mod_bound};
use vstd::prelude::*;

verus! {

/// 2^53: a number below it has at most 53 digits.
pub const DIGITS_END: u128 = 9007199254740992;

/// 2^52
pub const DIGITS_HALF_END: u128 = 4503599627370496;

/// 2^54: a square scaled by it has a root of one more digit than four
/// times its own scale.
pub const ROOT_SCALE: u128 = 18014398509481984;

/// The distance between the numbers of 53 digits next to `x`: 1 below 2^53,
/// and twice as much whenever `x` doubles.
pub open spec fn spacing(x: int) -> int
    decreases x,
{
    if x < DIGITS_END {
        1
    } else {
        2 * spacing(x / 2)
    }
}

/// The multiple of `unit` nearest to `x`; of two that are equally near, the
/// even multiple.
pub open spec fn nearest_even(x: int, unit: int) -> int {
    let below = x / unit;
    let rest = x % unit;
    if 2 * rest < unit || (2 * rest == unit && below % 2 == 0) {
        below * unit
    } else {
        (below + 1) * unit
    }
}

/// `x` rounded to 53 significant digits.
pub open spec fn rounded(x: int) -> int {
    nearest_even(x, spacing(x))
}

/// `t` is the square root of `x`, rounded down.
pub open spec fn is_floor_root(x: int, t: int) -> bool {
    0 <= t && t * t <= x < (t + 1) * (t + 1)
}

/// The square root of `x`, rounded down.
pub open spec fn floor_root(x: int) -> int {
    choose|t: int| is_floor_root(x, t)
}

/// The square root of `x`, rounded to 53 significant digits. The root of
/// `x` scaled by 2^54 is taken rounded down, on a scale twice as fine as
/// that of `x`; one more digit below it says whether anything was lost, so
/// that the rounding sees on which side of a half the root lies.
pub open spec fn rounded_root(x: int) -> int {
    let square = x * ROOT_SCALE;
    let floor = floor_root(square);
    let lost: int = if floor * floor == square { 0 } else { 1 };
    rounded(2 * floor + lost)
}

/// Rounds `x` to 53 significant digits.
pub(crate) fn round(x: u128) -> (y: u128)
    requires
        x < 0x1_0000_0000_0000_0000_0000_0000,
    ensures
        y == rounded(x as int),
{
    let mut unit: u128 = 1;
    let mut top: u128 = x;
    while top >= DIGITS_END
        invariant
            unit >= 1,
            top as int == x as int / unit as int,
            spacing(x as int) == unit * spacing(top as int),
            unit * top <= x,
            x < 0x1_0000_0000_0000_0000_0000_0000,
        decreases top,
    {
        proof {
            let half = top as int / 2;
            lemma_div_denominator(x as int, unit as int, 2);
            assert(unit * (2 * spacing(half)) == (unit * 2) * spacing(half)) by (nonlinear_arith);
            assert((unit * 2) * half <= unit * top && unit <= unit * top) by (nonlinear_arith)
                requires
                    unit >= 1,
                    top >= 2,
                    2 * half <= top,
                    half >= 0,
            ;
        }
        top = top / 2;
        unit = unit * 2;
    }
    proof {
        lemma_fundamental_div_mod(x as int, unit as int);
        lemma_mod_bound(x as int, unit as int);
        let below = x as int / unit as int;
        assert((below + 1) * unit == below * unit + unit && below * unit == unit * below)
            by (nonlinear_arith);
    }
    let below: u128 = x / unit;
    let rest: u128 = x % unit;
    if 2 * rest < unit || (2 * rest == unit && below % 2 == 0) {
        below * unit
    } else {
        (below + 1) * unit
    }
}

/// The square root of `x`, rounded down, found by bisection.
pub(crate) fn root_floor(x: u128) -> (t: u128)
    requires
        x < 0x8000_0000_0000_0000_0000_0000_0000_0000,
    ensures
        t == floor_root(x as int),
        is_floor_root(x as int, t as int),
        t < 0x1_0000_0000_0000_0000,
{
    let mut low: u128 = 0;
    let mut high: u128 = 0x1_0000_0000_0000_0000;
    assert(high * high == 0x1_0000_0000_0000_0000_0000_0000_0000_0000) by (nonlinear_arith)
        requires
            high == 0x1_0000_0000_0000_0000,
    ;
    while high - low > 1
        invariant
            low < high <= 0x1_0000_0000_0000_0000,
            low * low <= x,
            x < high * high,
        decreases high - low,
    {
        let middle: u128 = low + (high - low) / 2;
        assert(middle * middle <= 0xffff_ffff_ffff_ffff * 0xffff_ffff_ffff_ffff) by (nonlinear_arith)
            requires
                0 <= middle <= 0xffff_ffff_ffff_ffff,
        ;
        if middle * middle <= x {
            low = middle;
        } else {
            high = middle;
        }
    }
    proof {
        lemma_floor_root_exists(x as int);
        lemma_floor_root_unique(x as int, low as int, floor_root(x as int));
    }
    low
}

/// The distance between neighbours is at least 1, above `x / 2^53`, and,
/// from 2^53 on, at most `x / 2^52`.
pub proof fn lemma_spacing(x: int)
    requires
        0 <= x,
    ensures
        spacing(x) >= 1,
        x < DIGITS_END * spacing(x),
        x < DIGITS_END ==> spacing(x) == 1,
        x >= DIGITS_END ==> DIGITS_HALF_END * spacing(x) <= x,
    decreases x,
{
    if x >= DIGITS_END {
        lemma_spacing(x / 2);
    }
}

/// Rounding moves a number by at most the 2^53th part of itself.
pub proof fn lemma_rounded_near(x: int)
    requires
        0 <= x,
    ensures
        0 <= rounded(x),
        DIGITS_END * (rounded(x) - x) <= x,
        DIGITS_END * (x - rounded(x)) <= x,
{
    lemma_spacing(x);
    let unit = spacing(x);
    lemma_fundamental_div_mod(x, unit);
    lemma_mod_bound(x, unit);
    let below = x / unit;
    assert((below + 1) * unit == below * unit + unit && below * unit == unit * below)
        by (nonlinear_arith);
}

/// Every number that is not negative has a square root rounded down.
pub proof fn lemma_floor_root_exists(x: int)
    requires
        0 <= x,
    ensures
        is_floor_root(x, floor_root(x)),
    decreases x,
{
    if x == 0 {
        assert(is_floor_root(x, 0));
    } else {
        lemma_floor_root_exists(x - 1);
        let t = floor_root(x - 1);
        assert((t + 2) * (t + 2) > (t + 1) * (t + 1)) by (nonlinear_arith)
            requires
                0 <= t,
        ;
        if x < (t + 1) * (t + 1) {
            assert(is_floor_root(x, t));
        } else {
            assert(is_floor_root(x, t + 1));
        }
    }
}

/// A number has one square root rounded down.
pub proof fn lemma_floor_root_unique(x: int, first: int, other: int)
    requires
        is_floor_root(x, first),
        is_floor_root(x, other),
    ensures
        first == other,
{
    if first < other {
        lemma_squares_grow(first + 1, other);
    } else if other < first {
        lemma_squares_grow(other + 1, first);
    }
}

/// Of two numbers that are not negative, the larger has the larger square.
pub proof fn lemma_squares_grow(small: int, large: int)
    requires
        0 <= small <= large,
    ensures
        small * small <= large * large,
{
    assert(small * small <= large * large) by (nonlinear_arith)
        requires
            0 <= small <= large,
    ;
}

} // verus!
