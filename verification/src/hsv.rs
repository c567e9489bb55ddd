//! The HSV colour model.

use vstd::prelude::*;

verus! {

/// The HSV pixel: hue, saturation and value.
#[derive(Copy, Clone, Debug, Default, PartialEq, PartialOrd, Eq, Hash, Ord)]
pub struct HSV<T> {
    /// Hue (in degrees)
    pub h: T,
    /// Saturation (between 0 and 1)
    pub s: T,
    /// Value (between 0 and 1)
    pub v: T,
}

impl<N> HSV<N> {
    /// Creates a single pixel from its channels, which are taken as they are.
    pub fn new(h: N, s: N, v: N) -> (pixel: HSV<N>)
        ensures
            pixel == (HSV { h, s, v }),
    {
        HSV { h, s, v }
    }
}

} // verus!
