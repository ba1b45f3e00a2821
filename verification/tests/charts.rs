use plotkit_core::charts::histogram::count_bins;
use plotkit_core::charts::hexbin::{count_hex_cells, HexCell, HexbinArtist};
use plotkit_core::charts::polar::PolarArtist;
use plotkit_core::charts::waterfall::WaterfallArtist;
use plotkit_core::colormap::Colormap;
use plotkit_core::primitives::Color;
use plotkit_core::series::Categories;
use plotkit_core::theme::Marker;

fn sample_hexbin() -> HexbinArtist {
    HexbinArtist {
        gridsize: 10,
        cmap: Colormap::Viridis,
        mincnt: 1,
        color: Color::TAB_BLUE(),
        label: None,
        edgecolor: None,
        show_colorbar: false,
    }
}

fn sample_polar() -> PolarArtist {
    PolarArtist {
        color: Color::TAB_BLUE(),
        label: None,
        filled: false,
        marker: None,
    }
}

fn sample_waterfall() -> WaterfallArtist {
    WaterfallArtist {
        categories: Categories::new(vec!["Start".to_string(), "Q1".to_string(), "End".to_string()]),
        total_indices: Vec::new(),
        increase_color: Color::rgb(0x2C, 0xA0, 0x2C),
        decrease_color: Color::rgb(0xD6, 0x27, 0x28),
        total_color: Color::rgb(0x4E, 0x79, 0xA7),
        connector_lines: true,
        show_values: false,
        label: None,
        color: Color::TAB_BLUE(),
    }
}

// -- Hexbin builders ---------------------------------------------------------

#[test]
fn builder_gridsize() {
    let mut h = sample_hexbin();
    h.gridsize(30);
    assert_eq!(h.gridsize, 30);
}

#[test]
fn hexbin_builder_colormap() {
    let mut h = sample_hexbin();
    h.colormap(Colormap::Plasma);
    assert_eq!(h.cmap, Colormap::Plasma);
}

#[test]
fn builder_mincnt() {
    let mut h = sample_hexbin();
    h.mincnt(5);
    assert_eq!(h.mincnt, 5);
}

#[test]
fn hexbin_builder_label() {
    let mut h = sample_hexbin();
    h.label("hexbin test");
    assert_eq!(h.label.as_deref(), Some("hexbin test"));
}

#[test]
fn builder_edgecolor() {
    let mut h = sample_hexbin();
    h.edgecolor(Color::BLACK());
    assert_eq!(h.edgecolor, Some(Color::BLACK()));
}

#[test]
fn hexbin_builder_chaining_exact_settings() {
    let mut h = sample_hexbin();
    h.gridsize(15)
        .colormap(Colormap::Inferno)
        .mincnt(3)
        .label("chained")
        .edgecolor(Color::WHITE())
        .colorbar(true);
    assert_eq!(h.gridsize, 15);
    assert_eq!(h.cmap, Colormap::Inferno);
    assert_eq!(h.mincnt, 3);
    assert_eq!(h.label.as_deref(), Some("chained"));
    assert_eq!(h.edgecolor, Some(Color::WHITE()));
    assert!(h.show_colorbar);
}

// -- Hex cell counting ---------------------------------------------------------

fn cell(q: i64, r: i64) -> HexCell {
    HexCell { q, r }
}

#[test]
fn count_cells_empty() {
    let res = count_hex_cells(&vec![], 1);
    assert!(res.counts.is_empty());
    assert_eq!(res.max_count, 0);
    assert_eq!(res.min_count, 0);
}

#[test]
fn count_cells_identical_points_same_cell() {
    let cells = vec![cell(2, -1); 100];
    let res = count_hex_cells(&cells, 1);
    assert_eq!(res.counts, vec![(cell(2, -1), 100)]);
    assert_eq!(res.max_count, 100);
    assert_eq!(res.min_count, 100);
}

#[test]
fn count_cells_accounts_for_every_point() {
    let mut cells = vec![cell(0, 0); 50];
    cells.extend(vec![cell(7, 3); 30]);
    cells.push(cell(-1, 4));
    let res = count_hex_cells(&cells, 1);
    let total: usize = res.counts.iter().map(|c| c.1).sum();
    assert_eq!(total, 81);
    assert_eq!(res.counts.len(), 3);
    assert_eq!(res.max_count, 50);
    assert_eq!(res.min_count, 1);
}

#[test]
fn count_cells_mincnt_filtering() {
    let mut cells = vec![cell(0, 0); 10];
    cells.push(cell(5, 5));
    let res = count_hex_cells(&cells, 2);
    assert_eq!(res.counts, vec![(cell(0, 0), 10)]);
    assert_eq!(res.min_count, 10);
    let none = count_hex_cells(&cells, 11);
    assert!(none.counts.is_empty());
    assert_eq!(none.max_count, 0);
    assert_eq!(none.min_count, 0);
}

#[test]
fn count_cells_mincnt_zero_keeps_only_occupied_cells() {
    let cells = vec![cell(1, 1), cell(2, 2), cell(1, 1)];
    let res = count_hex_cells(&cells, 0);
    let mut counts = res.counts.clone();
    counts.sort_by_key(|c| (c.0.q, c.0.r));
    assert_eq!(counts, vec![(cell(1, 1), 2), (cell(2, 2), 1)]);
}

// -- Polar builders ------------------------------------------------------------

#[test]
fn polar_builder_color() {
    let mut a = sample_polar();
    a.color(Color::TAB_RED());
    assert_eq!(a.color, Color::TAB_RED());
}

#[test]
fn polar_builder_label() {
    let mut a = sample_polar();
    a.label("wind");
    assert_eq!(a.label, Some("wind".to_string()));
}

#[test]
fn builder_filled() {
    let mut a = sample_polar();
    assert!(!a.filled);
    a.filled(true);
    assert!(a.filled);
}

#[test]
fn builder_marker() {
    let mut a = sample_polar();
    assert!(a.marker.is_none());
    a.marker(Marker::Circle);
    assert_eq!(a.marker, Some(Marker::Circle));
}

#[test]
fn polar_builder_chaining_exact_settings() {
    let mut a = sample_polar();
    let _ = a.color(Color::TAB_GREEN()).label("test").filled(true).marker(Marker::Diamond);
    assert_eq!(a.color, Color::TAB_GREEN());
    assert_eq!(a.label, Some("test".to_string()));
    assert!(a.filled);
    assert_eq!(a.marker, Some(Marker::Diamond));
}

// -- Waterfall builders ----------------------------------------------------------

#[test]
fn waterfall_builders_set_fields() {
    let mut w = sample_waterfall();
    w.increase_color(Color::TAB_GREEN())
        .decrease_color(Color::TAB_RED())
        .total_color(Color::TAB_GREY())
        .connector_lines(false)
        .show_values(true)
        .label("cash flow")
        .total(&[0, 2]);
    assert_eq!(w.increase_color, Color::TAB_GREEN());
    assert_eq!(w.decrease_color, Color::TAB_RED());
    assert_eq!(w.total_color, Color::TAB_GREY());
    assert!(!w.connector_lines);
    assert!(w.show_values);
    assert_eq!(w.label.as_deref(), Some("cash flow"));
    assert_eq!(w.total_indices, vec![0, 2]);
    assert_eq!(w.categories.len(), 3);
}

#[test]
fn waterfall_total_replaces_previous_choice() {
    let mut w = sample_waterfall();
    w.total(&[1]);
    w.total(&[2]);
    assert_eq!(w.total_indices, vec![2]);
}

#[test]
fn waterfall_is_total() {
    let mut w = sample_waterfall();
    w.total(&[0, 2]);
    assert!(w.is_total(0));
    assert!(!w.is_total(1));
    assert!(w.is_total(2));
    assert!(!w.is_total(3));
}

#[test]
fn count_bins_counts_each_index_once() {
    // Five values, one per bin; the maximum lands on the right edge (index 5)
    // and is counted in the last bin.
    assert_eq!(count_bins(&vec![0, 1, 2, 3, 5], 5), vec![1, 1, 1, 1, 1]);
    assert_eq!(count_bins(&vec![0, 4, 5, 6], 5), vec![1, 0, 0, 0, 3]);
    assert_eq!(count_bins(&vec![2, 2, 2], 3), vec![0, 0, 3]);
    assert_eq!(count_bins(&Vec::new(), 4), vec![0, 0, 0, 0]);
    let counts = count_bins(&vec![0, 7, 1, 9, 3, 3], 4);
    assert_eq!(counts, vec![1, 1, 0, 4]);
    assert_eq!(counts.iter().sum::<usize>(), 6);
}
