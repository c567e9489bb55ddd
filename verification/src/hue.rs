//! The six sextants of the hue circle.
//!
//! A colour of hue `h` has its chroma in one RGB channel, a second, smaller
//! component in another, and nothing in the third. Which channel gets which
//! depends only on the 60-degree sextant that the hue lies in.

use vstd::prelude::*;

verus! {

/// The channels `(r, g, b)` for a hue of `degrees` whole degrees: `chroma`,
/// `second` and `zero` in the order of the sextant that `degrees` modulo 360
/// lies in.
pub open spec fn arranged<N>(degrees: u32, chroma: N, second: N, zero: N) -> (N, N, N) {
    let turn = degrees as int % 360;
    if turn < 60 {
        (chroma, second, zero)
    } else if turn < 120 {
        (second, chroma, zero)
    } else if turn < 180 {
        (zero, chroma, second)
    } else if turn < 240 {
        (zero, second, chroma)
    } else if turn < 300 {
        (second, zero, chroma)
    } else {
        (chroma, zero, second)
    }
}

/// Fills the channels `(r, g, b)` from the chroma, the second component and
/// the zero of a colour whose hue is `degrees` whole degrees. Hues are taken
/// modulo 360, so every hue lies in one of the six sextants.
pub fn arrange_by_sextant<N>(degrees: u32, chroma: N, second: N, zero: N) -> (channels: (N, N, N))
    ensures
        channels == arranged(degrees, chroma, second, zero),
{
    let turn: u32 = degrees % 360;
    if turn < 60 {
        (chroma, second, zero)
    } else if turn < 120 {
        (second, chroma, zero)
    } else if turn < 180 {
        (zero, chroma, second)
    } else if turn < 240 {
        (zero, second, chroma)
    } else if turn < 300 {
        (second, zero, chroma)
    } else {
        (chroma, zero, second)
    }
}

} // verus!
