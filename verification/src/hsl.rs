//! The HSL colour model.

use vstd::prelude::*;

verus! {

/// The HSL pixel: hue, saturation and lightness.
#[derive(Copy, Clone, Debug, Default, PartialEq, PartialOrd, Eq, Hash, Ord)]
pub struct HSL<T> {
    /// Hue (in degrees)
    pub h: T,
    /// Saturation (between 0 and 1)
    pub s: T,
    /// Lightness (between 0 and 1)
    pub l: T,
}

impl<N> HSL<N> {
    /// Creates a single pixel from its channels, which are taken as they are.
    pub fn new(h: N, s: N, l: N) -> (pixel: HSL<N>)
        ensures
            pixel == (HSL { h, s, l }),
    {
        HSL { h, s, l }
    }
}

} // verus!
