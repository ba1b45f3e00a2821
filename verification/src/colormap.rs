//! Named colormaps for mapping scalar values to colors.
//!
//! Each variant names a well-known scientific or perceptual gradient of the
//! `colorous` crate; evaluating a gradient at a position in `[0, 1]` is
//! floating-point work done beside the renderer.

use vstd::prelude::*;

verus! {

/// A named colormap that maps scalar values in `[0, 1]` to colors.
#[derive(Debug, Clone, Copy, PartialEq, Eq, Structural, Hash)]
pub enum Colormap {
    /// Perceptually uniform sequential (dark purple to yellow).
    Viridis,
    /// Perceptually uniform sequential (purple to yellow via pink).
    Plasma,
    /// Perceptually uniform sequential (black to yellow via red).
    Inferno,
    /// Perceptually uniform sequential (black to light yellow via magenta).
    Magma,
    /// Perceptually uniform sequential designed for color-vision deficiency.
    Cividis,
    /// Rainbow-like map with improved perceptual properties.
    Turbo,
    /// Diverging blue-white-red map.
    Coolwarm,
    /// Diverging multi-hue map.
    Spectral,
    /// Sequential single-hue blue map.
    Blues,
    /// Sequential single-hue red map.
    Reds,
    /// Sequential single-hue green map.
    Greens,
    /// Sequential single-hue grey map.
    Greys,
    /// Sequential multi-hue yellow-orange-red map.
    YlOrRd,
    /// Diverging red-blue map.
    RdBu,
}

} // verus!
