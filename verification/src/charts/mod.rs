//! Chart configuration and the exact parts of chart computations.

pub mod polar;
pub mod hexbin;
pub mod waterfall;
pub mod contour;
pub mod histogram;
