//! Style selectors shared by charts and axes: marker shapes, line styles,
//! legend locations and grid axes.

use vstd::prelude::*;

verus! {

/// The shape drawn at each data point.
#[derive(Debug, Clone, Copy, PartialEq, Eq, Structural)]
pub enum Marker {
    /// A filled circle.
    Circle,
    /// A filled square.
    Square,
    /// A filled upward-pointing triangle.
    Triangle,
    /// A filled diamond.
    Diamond,
    /// A plus sign.
    Plus,
    /// A diagonal cross.
    Cross,
    /// A five-pointed star.
    Star,
    /// A small dot.
    Point,
}

/// The stroke pattern of a line.
#[derive(Debug, Clone, Copy, PartialEq, Eq, Structural)]
pub enum LineStyle {
    /// A continuous line.
    Solid,
    /// Repeated dashes.
    Dashed,
    /// Repeated dots.
    Dotted,
    /// Alternating dashes and dots.
    DashDot,
}

/// Where a legend is placed within the plot area.
#[derive(Debug, Clone, Copy, PartialEq, Eq, Structural)]
#[non_exhaustive]
pub enum Loc {
    /// Placed automatically (currently the upper-right corner).
    Best,
    /// Upper-right corner.
    UpperRight,
    /// Upper-left corner.
    UpperLeft,
    /// Lower-left corner.
    LowerLeft,
    /// Lower-right corner.
    LowerRight,
    /// Right edge, vertically centered.
    Right,
    /// Left edge, vertically centered.
    CenterLeft,
    /// Right edge, vertically centered.
    CenterRight,
    /// Top edge, horizontally centered.
    LowerCenter,
    /// Bottom edge, horizontally centered.
    UpperCenter,
    /// The center of the plot area.
    Center,
}

/// Which axes display grid lines.
#[derive(Debug, Clone, Copy, PartialEq, Eq, Structural)]
pub enum GridAxis {
    /// Grid lines perpendicular to the x-axis only.
    X,
    /// Grid lines perpendicular to the y-axis only.
    Y,
    /// Grid lines on both axes.
    Both,
}

/// The grid axis that a name selects: `"x"`, `"y"`, and anything else means both.
pub open spec fn grid_axis_named(name: Seq<char>) -> GridAxis {
    if name == seq!['x'] {
        GridAxis::X
    } else if name == seq!['y'] {
        GridAxis::Y
    } else {
        GridAxis::Both
    }
}

impl GridAxis {
    /// The grid axis that a name selects. Accepts `"x"`, `"y"`, or `"both"`;
    /// unrecognised values are treated as `"both"`.
    pub fn from_name(name: &str) -> (g: GridAxis)
        ensures
            g == grid_axis_named(name@),
    {
        if name.unicode_len() == 1 {
            let c = name.get_char(0);
            if c == 'x' {
                assert(name@ =~= seq!['x']);
                return GridAxis::X;
            } else if c == 'y' {
                assert(name@ =~= seq!['y']);
                return GridAxis::Y;
            }
            assert(name@ != seq!['x']) by { assert(seq!['x'][0] == 'x'); }
            assert(name@ != seq!['y']) by { assert(seq!['y'][0] == 'y'); }
        } else {
            assert(name@.len() != seq!['x'].len());
        }
        GridAxis::Both
    }
}

} // verus!
