//! Core types and verified logic for the plotkit plotting library.
//!
//! This crate holds the parts of plotkit that are independent of floating
//! point: colors and paints, inline text markup, legend entries, error values,
//! chart configuration builders and the integer bookkeeping of the charts.

pub mod primitives;
pub mod text;
pub mod error;
pub mod legend;
pub mod theme;
pub mod series;
pub mod charts;
pub mod colormap;
pub mod annotations;
pub mod artist;
pub mod axes;
pub mod colorbar;
pub mod decimate;
pub mod figure;
