//! Colorbar settings.

use vstd::prelude::*;

verus! {

/// Orientation of the colorbar gradient strip.
#[derive(Debug, Clone, Copy, PartialEq, Eq, Structural)]
pub enum ColorbarOrientation {
    /// A vertical strip with values increasing from bottom to top.
    Vertical,
    /// A horizontal strip with values increasing from left to right.
    Horizontal,
}

impl Default for ColorbarOrientation {
    /// Colorbars are vertical unless asked otherwise.
    fn default() -> (o: Self)
        ensures
            o == ColorbarOrientation::Vertical,
    {
        ColorbarOrientation::Vertical
    }
}

} // verus!
