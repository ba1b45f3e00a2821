//! Waterfall chart configuration.
//!
//! A waterfall chart shows a running total across categories: each bar is
//! the change from the previous total, except "total" bars, which are drawn
//! from zero to the running total. The change values, the bar width and the
//! opacity are floating-point values held beside this configuration by the
//! renderer, which also accumulates the running totals.

use vstd::prelude::*;
use crate::primitives::Color;
use crate::series::Categories;

verus! {

/// The exact settings of a waterfall chart.
#[derive(Debug, Clone)]
pub struct WaterfallArtist {
    /// Category labels, one per bar.
    pub categories: Categories,
    /// Zero-based indices of the bars drawn as totals.
    pub total_indices: Vec<usize>,
    /// Fill color of bars that increase the running total.
    pub increase_color: Color,
    /// Fill color of bars that decrease the running total.
    pub decrease_color: Color,
    /// Fill color of total bars.
    pub total_color: Color,
    /// Whether connector lines join consecutive bar tops.
    pub connector_lines: bool,
    /// Whether each bar shows its value as a label.
    pub show_values: bool,
    /// Optional legend label.
    pub label: Option<String>,
    /// Primary color (used for the legend swatch).
    pub color: Color,
}

impl WaterfallArtist {
    /// The settings other than the colors of the three bar kinds.
    pub open spec fn same_shape(&self, o: &Self) -> bool {
        &&& self.categories == o.categories
        &&& self.total_indices == o.total_indices
        &&& self.connector_lines == o.connector_lines
        &&& self.show_values == o.show_values
        &&& self.label == o.label
        &&& self.color == o.color
    }

    /// The colors of the three bar kinds.
    pub open spec fn same_bar_colors(&self, o: &Self) -> bool {
        &&& self.increase_color == o.increase_color
        &&& self.decrease_color == o.decrease_color
        &&& self.total_color == o.total_color
    }

    /// Sets the color for bars representing positive (increasing) changes.
    pub fn increase_color(&mut self, color: Color) -> (r: &mut Self)
        ensures
            r.increase_color == color,
            r.decrease_color == old(self).decrease_color,
            r.total_color == old(self).total_color,
            r.same_shape(old(self)),
            *final(self) == *final(r),
    {
        self.increase_color = color;
        self
    }

    /// Sets the color for bars representing negative (decreasing) changes.
    pub fn decrease_color(&mut self, color: Color) -> (r: &mut Self)
        ensures
            r.decrease_color == color,
            r.increase_color == old(self).increase_color,
            r.total_color == old(self).total_color,
            r.same_shape(old(self)),
            *final(self) == *final(r),
    {
        self.decrease_color = color;
        self
    }

    /// Sets the color for total bars (bars drawn from zero).
    pub fn total_color(&mut self, color: Color) -> (r: &mut Self)
        ensures
            r.total_color == color,
            r.increase_color == old(self).increase_color,
            r.decrease_color == old(self).decrease_color,
            r.same_shape(old(self)),
            *final(self) == *final(r),
    {
        self.total_color = color;
        self
    }

    /// Enables or disables connector lines between consecutive bar tops.
    pub fn connector_lines(&mut self, enabled: bool) -> (r: &mut Self)
        ensures
            r.connector_lines == enabled,
            r.categories == old(self).categories,
            r.total_indices == old(self).total_indices,
            r.show_values == old(self).show_values,
            r.label == old(self).label,
            r.color == old(self).color,
            r.same_bar_colors(old(self)),
            *final(self) == *final(r),
    {
        self.connector_lines = enabled;
        self
    }

    /// Enables or disables value labels displayed on each bar.
    pub fn show_values(&mut self, enabled: bool) -> (r: &mut Self)
        ensures
            r.show_values == enabled,
            r.categories == old(self).categories,
            r.total_indices == old(self).total_indices,
            r.connector_lines == old(self).connector_lines,
            r.label == old(self).label,
            r.color == old(self).color,
            r.same_bar_colors(old(self)),
            *final(self) == *final(r),
    {
        self.show_values = enabled;
        self
    }

    /// Sets the legend label, replacing any previous one.
    pub fn label(&mut self, label: &str) -> (r: &mut Self)
        ensures
            r.label matches Some(l) && l@ == label@,
            r.categories == old(self).categories,
            r.total_indices == old(self).total_indices,
            r.connector_lines == old(self).connector_lines,
            r.show_values == old(self).show_values,
            r.color == old(self).color,
            r.same_bar_colors(old(self)),
            *final(self) == *final(r),
    {
        self.label = Some(label.to_owned());
        self
    }

    /// Marks the given bar indices as "total" bars, replacing any earlier
    /// choice. Total bars are drawn from zero to the running total.
    pub fn total(&mut self, indices: &[usize]) -> (r: &mut Self)
        ensures
            r.total_indices@ == indices@,
            r.categories == old(self).categories,
            r.connector_lines == old(self).connector_lines,
            r.show_values == old(self).show_values,
            r.label == old(self).label,
            r.color == old(self).color,
            r.same_bar_colors(old(self)),
            *final(self) == *final(r),
    {
        self.total_indices = vstd::slice::slice_to_vec(indices);
        self
    }

    /// Returns whether bar `i` is drawn as a total bar.
    pub fn is_total(&self, i: usize) -> (b: bool)
        ensures
            b == self.total_indices@.contains(i),
    {
        let n = self.total_indices.len();
        let mut k: usize = 0;
        while k < n
            invariant
                k <= n,
                n == self.total_indices@.len(),
                forall|x: int| 0 <= x < k ==> self.total_indices@[x] != i,
            decreases n - k,
        {
            if self.total_indices[k] == i {
                assert(self.total_indices@[k as int] == i);
                return true;
            }
            k = k + 1;
        }
        false
    }
}

} // verus!
