//! Polar plot configuration.
//!
//! A polar plot draws `(theta, r)` data either as a polyline in polar space
//! (`filled = false`) or as a closed, filled radar/area shape
//! (`filled = true`). The angle and radius samples, the opacity and the line
//! width are floating-point values held beside this configuration by the
//! renderer; the settings below are exact.

use vstd::prelude::*;
use crate::primitives::Color;
use crate::theme::Marker;

verus! {

/// The exact settings of a polar plot.
#[derive(Debug, Clone)]
pub struct PolarArtist {
    /// Line/fill color.
    pub color: Color,
    /// Optional legend label.
    pub label: Option<String>,
    /// Whether the path is closed and filled.
    pub filled: bool,
    /// Marker drawn at each data point; `None` draws no markers.
    pub marker: Option<Marker>,
}

impl PolarArtist {
    /// Sets the line/fill color.
    pub fn color(&mut self, color: Color) -> (r: &mut Self)
        ensures
            r.color == color,
            r.label == old(self).label,
            r.filled == old(self).filled,
            r.marker == old(self).marker,
            *final(self) == *final(r),
    {
        self.color = color;
        self
    }

    /// Sets the legend label for this polar series.
    pub fn label(&mut self, label: &str) -> (r: &mut Self)
        ensures
            r.label matches Some(l) && l@ == label@,
            r.color == old(self).color,
            r.filled == old(self).filled,
            r.marker == old(self).marker,
            *final(self) == *final(r),
    {
        self.label = Some(label.to_owned());
        self
    }

    /// Controls whether the polar path is closed and filled.
    pub fn filled(&mut self, filled: bool) -> (r: &mut Self)
        ensures
            r.filled == filled,
            r.color == old(self).color,
            r.label == old(self).label,
            r.marker == old(self).marker,
            *final(self) == *final(r),
    {
        self.filled = filled;
        self
    }

    /// Sets the marker shape drawn at each data point.
    pub fn marker(&mut self, marker: Marker) -> (r: &mut Self)
        ensures
            r.marker == Some(marker),
            r.color == old(self).color,
            r.label == old(self).label,
            r.filled == old(self).filled,
            *final(self) == *final(r),
    {
        self.marker = Some(marker);
        self
    }
}

} // verus!
