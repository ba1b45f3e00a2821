//! Legend entries: a color swatch (line segment or filled rectangle) and a
//! text label for each labelled artist.

use vstd::prelude::*;
use crate::primitives::Color;

verus! {

/// A value that can become a legend label: a string slice or an owned string.
pub trait IntoLabel {
    /// The characters of the label this value becomes.
    spec fn label_text(&self) -> Seq<char>;

    /// Converts this value into an owned label string.
    fn into_label(self) -> (s: String)
        ensures
            s@ == self.label_text(),
    ;
}

impl<'a> IntoLabel for &'a str {
    open spec fn label_text(&self) -> Seq<char> {
        (**self)@
    }

    fn into_label(self) -> (s: String) {
        self.to_owned()
    }
}

impl IntoLabel for String {
    open spec fn label_text(&self) -> Seq<char> {
        self@
    }

    fn into_label(self) -> (s: String) {
        self
    }
}

/// A single legend entry consisting of a color swatch and a text label.
///
/// - **Line** entries draw a short horizontal line segment in the given color.
/// - **Filled** entries draw a small filled rectangle in the given color.
#[derive(Debug, Clone)]
pub struct LegendEntry {
    /// The display label shown next to the swatch.
    pub label: String,
    /// The color used to render the swatch.
    pub color: Color,
    /// The visual style of the swatch.
    pub swatch: SwatchKind,
}

/// Describes the visual representation of a legend swatch.
#[derive(Debug, Clone, Copy, PartialEq, Eq, Structural)]
pub enum SwatchKind {
    /// A short horizontal line segment, typically used for line plots.
    Line,
    /// A small filled rectangle, typically used for bar charts, histograms,
    /// and fill-between areas.
    Filled,
}

impl LegendEntry {
    /// Creates a legend entry with a line swatch.
    ///
    /// Use this for line plots and any artist that is primarily represented
    /// by a stroked path.
    pub fn line(label: impl IntoLabel, color: Color) -> (e: Self)
        ensures
            e.label@ == label.label_text(),
            e.color == color,
            e.swatch == SwatchKind::Line,
    {
        LegendEntry { label: label.into_label(), color, swatch: SwatchKind::Line }
    }

    /// Creates a legend entry with a filled-rectangle swatch.
    ///
    /// Use this for bar charts, histograms, fill-between areas, and any
    /// artist that is primarily represented by a filled region.
    pub fn filled(label: impl IntoLabel, color: Color) -> (e: Self)
        ensures
            e.label@ == label.label_text(),
            e.color == color,
            e.swatch == SwatchKind::Filled,
    {
        LegendEntry { label: label.into_label(), color, swatch: SwatchKind::Filled }
    }
}

/// The kinds of chart an axes can hold.
#[derive(Debug, Clone, Copy, PartialEq, Eq, Structural)]
pub enum ChartKind {
    /// A line plot.
    Line,
    /// A scatter plot.
    Scatter,
    /// A vertical or horizontal bar chart.
    Bar,
    /// A histogram.
    Histogram,
    /// A filled area between two curves.
    FillBetween,
    /// A step (staircase) plot.
    Step,
    /// A stem plot.
    Stem,
    /// A box plot.
    BoxPlot,
    /// Error bars.
    ErrorBar,
    /// A heatmap.
    Heatmap,
    /// A pie chart.
    Pie,
    /// A violin plot.
    Violin,
    /// Contour lines or filled contours.
    Contour,
    /// A polar line or area chart.
    Polar,
    /// A hexagonal binning chart.
    Hexbin,
    /// A waterfall chart.
    Waterfall,
}

/// The swatch that represents a chart of `kind` in the legend: a line for
/// line, step and error-bar charts and for unfilled contour and polar
/// charts, a filled rectangle for every other chart.
pub open spec fn swatch_of(kind: ChartKind, filled: bool) -> SwatchKind {
    match kind {
        ChartKind::Line | ChartKind::Step | ChartKind::ErrorBar => SwatchKind::Line,
        ChartKind::Contour | ChartKind::Polar => if filled {
            SwatchKind::Filled
        } else {
            SwatchKind::Line
        },
        _ => SwatchKind::Filled,
    }
}

/// Returns the legend swatch of a chart of `kind`; `filled` tells whether
/// a contour or polar chart is filled (other kinds ignore it).
pub fn swatch_for(kind: ChartKind, filled: bool) -> (s: SwatchKind)
    ensures
        s == swatch_of(kind, filled),
{
    match kind {
        ChartKind::Line | ChartKind::Step | ChartKind::ErrorBar => SwatchKind::Line,
        ChartKind::Contour | ChartKind::Polar => if filled {
            SwatchKind::Filled
        } else {
            SwatchKind::Line
        },
        _ => SwatchKind::Filled,
    }
}

/// What the legend reads of one artist: its label, if it has one, its
/// primary color and the kind of swatch that represents it.
pub type LegendSource = (Option<String>, Color, SwatchKind);

/// A legend entry as plain values: label characters, color and swatch.
pub open spec fn entry_view(e: LegendEntry) -> (Seq<char>, Color, SwatchKind) {
    (e.label@, e.color, e.swatch)
}

/// The entries of a legend over `sources`, in order: one for each labelled
/// artist, carrying its label, color and swatch; unlabelled artists are
/// left out.
pub open spec fn labelled_entries(sources: Seq<LegendSource>) -> Seq<(Seq<char>, Color, SwatchKind)>
    decreases sources.len(),
{
    if sources.len() == 0 {
        seq![]
    } else {
        let prev = labelled_entries(sources.drop_last());
        let (label, color, swatch) = sources.last();
        match label {
            Some(text) => prev.push((text@, color, swatch)),
            None => prev,
        }
    }
}

/// Collects the legend entries of a list of artists, described by their
/// label, color and swatch kind, in drawing order. Artists without a label
/// get no entry.
pub fn collect_legend_entries(sources: &Vec<LegendSource>) -> (entries: Vec<LegendEntry>)
    ensures
        entries@.map_values(|e: LegendEntry| entry_view(e)) == labelled_entries(sources@),
{
    let mut entries: Vec<LegendEntry> = Vec::new();
    let mut i: usize = 0;
    while i < sources.len()
        invariant
            i <= sources@.len(),
            entries@.map_values(|e: LegendEntry| entry_view(e)) == labelled_entries(
                sources@.take(i as int),
            ),
        decreases sources@.len() - i,
    {
        let ghost before = entries@;
        assert(sources@.take(i as int + 1).drop_last() =~= sources@.take(i as int));
        let (label, color, swatch) = &sources[i];
        match label {
            Some(text) => {
                entries.push(LegendEntry { label: text.clone(), color: *color, swatch: *swatch });
                assert(entries@.map_values(|e: LegendEntry| entry_view(e)) =~= before.map_values(
                    |e: LegendEntry| entry_view(e),
                ).push(entry_view(entries@.last())));
            },
            None => {},
        }
        i = i + 1;
    }
    assert(sources@.take(sources@.len() as int) =~= sources@);
    entries
}

} // verus!
