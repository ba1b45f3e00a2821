use plotkit_core::axes::TwinSide;
use plotkit_core::figure::{twin_legend_loc, Figure, SubplotAxes, DEFAULT_HEIGHT, DEFAULT_WIDTH};
use plotkit_core::theme::Loc;

/// A minimal axes for exercising the figure's subplot and twin bookkeeping.
#[derive(Debug, Clone, PartialEq)]
struct TestAxes {
    twin_side: Option<TwinSide>,
    color_index: usize,
}

impl TestAxes {
    fn is_twin(&self) -> bool {
        self.twin_side.is_some()
    }

    fn twin_side(&self) -> Option<TwinSide> {
        self.twin_side
    }
}

impl SubplotAxes for TestAxes {
    fn new_axes() -> Self {
        TestAxes { twin_side: None, color_index: 0 }
    }

    fn new_twin_axes(side: TwinSide, color_index: usize) -> Self {
        TestAxes { twin_side: Some(side), color_index }
    }

    fn color_index(&self) -> usize {
        self.color_index
    }
}

type Fig = Figure<TestAxes>;

#[test]
fn new_figure_has_default_dimensions() {
    let fig = Fig::new();
    assert_eq!(fig.width(), DEFAULT_WIDTH);
    assert_eq!(fig.height(), DEFAULT_HEIGHT);
}

#[test]
fn with_size_sets_dimensions() {
    let fig = Fig::with_size(1024, 768);
    assert_eq!(fig.width(), 1024);
    assert_eq!(fig.height(), 768);
}

#[test]
fn default_figure_has_no_axes() {
    let fig = Fig::new();
    assert_eq!(fig.num_axes(), 0);
}

#[test]
fn add_subplot_creates_axes() {
    let mut fig = Fig::new();
    let _ax = fig.add_subplot(1, 1, 1);
    assert_eq!(fig.num_axes(), 1);
}

#[test]
fn add_subplot_returns_same_axes_on_repeat() {
    let mut fig = Fig::new();
    fig.add_subplot(2, 2, 1);
    fig.add_subplot(2, 2, 1); // same index, should not duplicate
    assert_eq!(fig.num_axes(), 1);
}

#[test]
fn add_subplot_pads_for_skipped_indices() {
    let mut fig = Fig::new();
    fig.add_subplot(2, 2, 3); // skip indices 1 and 2
    assert_eq!(fig.num_axes(), 3); // indices 0, 1, 2 all exist
}

#[test]
fn suptitle_sets_title() {
    let mut fig = Fig::new();
    fig.suptitle("My Figure");
    assert_eq!(fig.suptitle_text(), Some(&"My Figure".to_string()));
}

#[test]
fn suptitle_returns_self_for_chaining() {
    let mut fig = Fig::new();
    fig.suptitle("Title 1").suptitle("Title 2");
    assert_eq!(fig.suptitle_text(), Some(&"Title 2".to_string()));
}

#[test]
fn suptitle_resolves_markup() {
    let mut fig = Fig::new();
    fig.suptitle("CO_2 at 10^{-3}");
    assert_eq!(fig.suptitle_text(), Some(&"CO₂ at 10⁻³".to_string()));
}

#[test]
fn axes_mut_returns_none_for_out_of_bounds() {
    let mut fig = Fig::new();
    assert!(fig.axes_mut(0).is_none());
}

#[test]
fn axes_mut_returns_some_for_valid_index() {
    let mut fig = Fig::new();
    fig.add_subplot(1, 1, 1);
    assert!(fig.axes_mut(0).is_some());
}

#[test]
fn axes_returns_shared_reference() {
    let mut fig = Fig::new();
    fig.add_subplot(1, 1, 1);
    assert!(fig.axes(0).is_some());
    assert!(fig.axes(1).is_none());
}

#[test]
fn default_impl_matches_new() {
    let from_new = Fig::new();
    let from_default = Fig::default();
    assert_eq!(from_new.width(), from_default.width());
    assert_eq!(from_new.height(), from_default.height());
    assert_eq!(from_new.num_axes(), from_default.num_axes());
}

#[test]
fn multiple_subplots_in_grid() {
    let mut fig = Fig::new();
    fig.add_subplot(2, 3, 1);
    fig.add_subplot(2, 3, 4);
    fig.add_subplot(2, 3, 6);
    assert_eq!(fig.num_axes(), 6); // padded to fill up to index 6
    assert_eq!(fig.subplot_grid(), Some((2, 3)));
}

#[test]
fn subplots_builds_full_grid() {
    let fig = Fig::subplots(2, 3);
    assert_eq!(fig.num_axes(), 6);
    assert_eq!(fig.subplot_grid(), Some((2, 3)));
    let sized = Fig::subplots_with_size(1, 2, 640, 480);
    assert_eq!(sized.num_axes(), 2);
    assert_eq!((sized.width(), sized.height()), (640, 480));
}

#[test]
fn axes_grid_indexes_row_major() {
    let mut fig = Fig::subplots(2, 2);
    fig.axes_mut(3).unwrap().color_index = 7;
    assert_eq!(fig.axes_grid(1, 1, 2).unwrap().color_index, 7);
    assert!(fig.axes_grid(2, 0, 2).is_none());
}

#[test]
fn add_subplot_keeps_existing_axes_state() {
    let mut fig = Fig::new();
    fig.add_subplot(1, 2, 1).color_index = 4;
    fig.add_subplot(1, 2, 2);
    assert_eq!(fig.add_subplot(1, 2, 1).color_index, 4);
    assert_eq!(fig.num_axes(), 2);
}

#[test]
fn tight_layout_changes_nothing() {
    let mut fig = Fig::subplots(1, 2);
    fig.tight_layout();
    assert_eq!(fig.num_axes(), 2);
    assert_eq!(fig.subplot_grid(), Some((1, 2)));
}

// -- Twin axes -----------------------------------------------------------------

#[test]
fn twinx_creates_new_axes() {
    let mut fig = Fig::new();
    fig.add_subplot(1, 1, 1);
    let ax2 = fig.twinx(0);
    assert!(ax2.is_twin());
    assert_eq!(ax2.twin_side(), Some(TwinSide::Right));
    assert_eq!(fig.num_axes(), 2);
}

#[test]
fn twiny_creates_new_axes() {
    let mut fig = Fig::new();
    fig.add_subplot(1, 1, 1);
    let ax2 = fig.twiny(0);
    assert!(ax2.is_twin());
    assert_eq!(ax2.twin_side(), Some(TwinSide::Top));
    assert_eq!(fig.num_axes(), 2);
}

#[test]
fn twinx_links_to_parent() {
    let mut fig = Fig::new();
    fig.add_subplot(1, 1, 1);
    fig.twinx(0);
    assert_eq!(fig.twin_of(0), Some(1));
}

#[test]
fn twinx_inherits_color_index() {
    let mut fig = Fig::new();
    fig.add_subplot(1, 1, 1).color_index = 1;
    let ax2 = fig.twinx(0);
    assert_eq!(ax2.color_index, 1);
}

#[test]
fn primary_axes_is_not_twin() {
    let mut fig = Fig::new();
    fig.add_subplot(1, 1, 1);
    assert!(!fig.axes(0).unwrap().is_twin());
    assert_eq!(fig.axes(0).unwrap().twin_side(), None);
}

#[test]
fn twin_of_returns_none_when_no_twin() {
    let mut fig = Fig::new();
    fig.add_subplot(1, 1, 1);
    assert_eq!(fig.twin_of(0), None);
}

#[test]
fn multiple_subplots_with_different_twins() {
    let mut fig = Fig::new();
    fig.add_subplot(1, 2, 1);
    fig.add_subplot(1, 2, 2);
    fig.twinx(0);
    fig.twiny(1);
    assert_eq!(fig.twin_of(0), Some(2));
    assert_eq!(fig.twin_of(1), Some(3));
    assert_eq!(fig.num_axes(), 4);
}

#[test]
fn render_plan_draws_twins_with_their_parent() {
    let mut fig = Fig::subplots(1, 2);
    fig.twinx(0);
    // Axes 2 is the twin of axes 0; it has no cell of its own.
    assert_eq!(fig.render_plan(), vec![(0, Some(2)), (1, None)]);
}

#[test]
fn render_plan_without_subplots_is_empty() {
    let fig = Fig::new();
    assert!(fig.render_plan().is_empty());
}

#[test]
fn render_plan_skips_subplots_beyond_the_grid() {
    let mut fig = Fig::subplots(2, 2);
    fig.add_subplot(1, 2, 1);
    assert_eq!(fig.subplot_grid(), Some((1, 2)));
    assert_eq!(fig.render_plan(), vec![(0, None), (1, None)]);
}

#[test]
fn render_plan_places_subplots_after_a_twin_in_their_own_cells() {
    let mut fig = Fig::new();
    fig.add_subplot(1, 2, 1);
    fig.twinx(0);
    fig.add_subplot(1, 2, 2);
    // Subplot 2 is axes 2 (axes 1 is the twin of subplot 1).
    assert_eq!(fig.render_plan(), vec![(0, Some(1)), (2, None)]);
}

#[test]
fn add_subplot_after_twin_creates_a_new_subplot() {
    let mut fig = Fig::new();
    fig.add_subplot(1, 2, 1);
    fig.twinx(0);
    let ax = fig.add_subplot(1, 2, 2);
    assert!(!ax.is_twin());
    assert_eq!(fig.num_axes(), 3);
    assert_eq!(fig.twin_of(0), Some(1));
    // Asking again for subplot 2 returns the same axes.
    fig.add_subplot(1, 2, 2).color_index = 9;
    assert_eq!(fig.num_axes(), 3);
    assert_eq!(fig.axes(2).unwrap().color_index, 9);
    assert!(!fig.add_subplot(1, 2, 1).is_twin());
}

#[test]
fn add_subplot_pads_past_a_twin() {
    let mut fig = Fig::new();
    fig.add_subplot(2, 2, 1);
    fig.twiny(0);
    fig.add_subplot(2, 2, 4);
    // Subplots 2, 3 and 4 are appended after the twin.
    assert_eq!(fig.num_axes(), 5);
    assert!(fig.axes(1).unwrap().is_twin());
    assert!(!fig.axes(4).unwrap().is_twin());
}

#[test]
fn twin_legend_location_prefers_parent() {
    assert_eq!(twin_legend_loc(true, Loc::UpperLeft, true, Loc::LowerRight), Some(Loc::UpperLeft));
    assert_eq!(twin_legend_loc(false, Loc::UpperLeft, true, Loc::LowerRight), Some(Loc::LowerRight));
    assert_eq!(twin_legend_loc(false, Loc::UpperLeft, false, Loc::LowerRight), None);
}
