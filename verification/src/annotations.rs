//! Annotation styles.

use vstd::prelude::*;

verus! {

/// Arrow style for annotations connecting text to a data point.
#[derive(Debug, Clone, Copy, PartialEq, Eq, Structural)]
pub enum ArrowStyle {
    /// No arrow is drawn; only the text is shown.
    NoArrow,
    /// A simple line arrow with a small triangular head.
    Simple,
    /// A wider, more prominent arrowhead.
    Fancy,
}

} // verus!
