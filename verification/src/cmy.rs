//! The CMY colour model.

use vstd::prelude::*;

verus! {

/// The CMY pixel: the levels of cyan, magenta and yellow.
#[derive(Copy, Clone, Debug, Default, PartialEq, PartialOrd, Eq, Hash, Ord)]
pub struct CMY<T> {
    /// Cyan (between 0 and 1)
    pub c: T,
    /// Magenta (between 0 and 1)
    pub m: T,
    /// Yellow (between 0 and 1)
    pub y: T,
}

impl<N> CMY<N> {
    /// Creates a single pixel from its channels, which are taken as they are.
    pub fn new(c: N, m: N, y: N) -> (pixel: CMY<N>)
        ensures
            pixel == (CMY { c, m, y }),
    {
        CMY { c, m, y }
    }
}

} // verus!
