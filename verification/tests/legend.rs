use plotkit_core::legend::{collect_legend_entries, swatch_for, ChartKind, LegendEntry, LegendSource, SwatchKind};
use plotkit_core::primitives::Color;

#[test]
fn entry_line_constructor() {
    let e = LegendEntry::line("Temperature", Color::TAB_BLUE());
    assert_eq!(e.label, "Temperature");
    assert_eq!(e.color, Color::TAB_BLUE());
    assert_eq!(e.swatch, SwatchKind::Line);
}

#[test]
fn entry_filled_constructor() {
    let e = LegendEntry::filled("Rainfall", Color::TAB_GREEN());
    assert_eq!(e.label, "Rainfall");
    assert_eq!(e.color, Color::TAB_GREEN());
    assert_eq!(e.swatch, SwatchKind::Filled);
}

#[test]
fn entry_accepts_string_type() {
    let owned = String::from("Owned label");
    let e = LegendEntry::line(owned, Color::TAB_RED());
    assert_eq!(e.label, "Owned label");
}

#[test]
fn legend_skips_unlabelled_artists_and_keeps_order() {
    let sources: Vec<LegendSource> = vec![
        (Some("first".to_string()), Color::TAB_BLUE(), SwatchKind::Line),
        (None, Color::TAB_ORANGE(), SwatchKind::Filled),
        (Some("third".to_string()), Color::TAB_GREEN(), SwatchKind::Filled),
    ];
    let entries = collect_legend_entries(&sources);
    assert_eq!(entries.len(), 2);
    assert_eq!(entries[0].label, "first");
    assert_eq!(entries[0].color, Color::TAB_BLUE());
    assert_eq!(entries[0].swatch, SwatchKind::Line);
    assert_eq!(entries[1].label, "third");
    assert_eq!(entries[1].color, Color::TAB_GREEN());
    assert_eq!(entries[1].swatch, SwatchKind::Filled);
}

#[test]
fn legend_of_unlabelled_artists_is_empty() {
    let sources: Vec<LegendSource> = vec![(None, Color::TAB_RED(), SwatchKind::Line)];
    assert!(collect_legend_entries(&sources).is_empty());
    assert!(collect_legend_entries(&Vec::new()).is_empty());
}

#[test]
fn legend_swatch_by_chart_kind() {
    for kind in [ChartKind::Line, ChartKind::Step, ChartKind::ErrorBar] {
        assert_eq!(swatch_for(kind, false), SwatchKind::Line);
        assert_eq!(swatch_for(kind, true), SwatchKind::Line);
    }
    for kind in [ChartKind::Contour, ChartKind::Polar] {
        assert_eq!(swatch_for(kind, false), SwatchKind::Line);
        assert_eq!(swatch_for(kind, true), SwatchKind::Filled);
    }
    for kind in [
        ChartKind::Scatter,
        ChartKind::Bar,
        ChartKind::Histogram,
        ChartKind::FillBetween,
        ChartKind::Stem,
        ChartKind::BoxPlot,
        ChartKind::Heatmap,
        ChartKind::Pie,
        ChartKind::Violin,
        ChartKind::Hexbin,
        ChartKind::Waterfall,
    ] {
        assert_eq!(swatch_for(kind, false), SwatchKind::Filled);
    }
}
