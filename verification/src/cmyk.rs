//! The CMYK colour model.

use vstd::prelude::*;

verus! {

/// The CMYK pixel: the levels of cyan, magenta, yellow and black.
#[derive(Copy, Clone, Debug, Default, PartialEq, PartialOrd, Eq, Hash, Ord)]
pub struct CMYK<T> {
    /// Cyan (between 0 and 1)
    pub c: T,
    /// Magenta (between 0 and 1)
    pub m: T,
    /// Yellow (between 0 and 1)
    pub y: T,
    /// Black (between 0 and 1)
    pub k: T,
}

impl<N> CMYK<N> {
    /// Creates a single pixel from its channels, which are taken as they are.
    pub fn new(c: N, m: N, y: N, k: N) -> (pixel: CMYK<N>)
        ensures
            pixel == (CMYK { c, m, y, k }),
    {
        CMYK { c, m, y, k }
    }
}

} // verus!
