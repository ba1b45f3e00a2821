//! The figure: the top-level container of one or more axes (subplots).
//!
//! A [`Figure`] owns its axes, the output dimensions, an optional
//! super-title, the subplot grid and the twin relation between axes. The
//! bookkeeping of subplots and twins is exact and stands here, generic over
//! the axes type; drawing the figure is floating-point work done by the
//! renderer.

use vstd::prelude::*;
use crate::axes::TwinSide;
use crate::theme::Loc;
use crate::text::{format_markup, markup};

verus! {

/// Default figure width in pixels.
pub const DEFAULT_WIDTH: u32 = 800;

/// Default figure height in pixels.
pub const DEFAULT_HEIGHT: u32 = 600;

/// What a figure needs of its axes: a way to create a fresh axes and a twin
/// axes, and the position of an axes in its color cycle.
pub trait SubplotAxes: Sized {
    /// Creates a new, empty axes with default settings.
    fn new_axes() -> Self;

    /// Creates a new twin axes on `side` whose color cycle continues at
    /// `color_index`.
    fn new_twin_axes(side: TwinSide, color_index: usize) -> Self;

    /// The position of the next chart color in this axes' color cycle.
    fn color_index(&self) -> usize;
}

/// Whether `i` is the target of an entry of the twin map `twin_map`, that
/// is, whether axes `i` is the twin of some axes.
pub open spec fn is_twin_target(twin_map: Seq<Option<usize>>, i: int) -> bool {
    exists|k: int| 0 <= k < twin_map.len() && (#[trigger] twin_map[k] matches Some(t) && t == i)
}

/// The positions of the subplots among the first `m` axes: the axes that
/// are not twins, in order. Subplot `k` (0-based) is the axes at position
/// `subplot_positions_upto(twin_map, m)[k]`.
pub open spec fn subplot_positions_upto(twin_map: Seq<Option<usize>>, m: int) -> Seq<int>
    decreases m,
{
    if m <= 0 {
        seq![]
    } else if is_twin_target(twin_map, m - 1) {
        subplot_positions_upto(twin_map, m - 1)
    } else {
        subplot_positions_upto(twin_map, m - 1).push(m - 1)
    }
}

/// Subplot positions are increasing positions below `m` that are not twins.
pub proof fn lemma_subplot_positions(twin_map: Seq<Option<usize>>, m: int)
    ensures
        subplot_positions_upto(twin_map, m).len() <= if m < 0 { 0 } else { m },
        forall|k: int|
            0 <= k < subplot_positions_upto(twin_map, m).len() ==> 0 <= #[trigger] subplot_positions_upto(
                twin_map,
                m,
            )[k] < m && !is_twin_target(twin_map, subplot_positions_upto(twin_map, m)[k]),
        forall|a: int, b: int|
            0 <= a < b < subplot_positions_upto(twin_map, m).len() ==> #[trigger] subplot_positions_upto(
                twin_map,
                m,
            )[a] < #[trigger] subplot_positions_upto(twin_map, m)[b],
    decreases m,
{
    if m > 0 {
        lemma_subplot_positions(twin_map, m - 1);
    }
}

/// Twin maps that mark the same positions below `m` as twins give the same
/// subplot positions below `m`.
pub proof fn lemma_subplot_positions_same(a: Seq<Option<usize>>, b: Seq<Option<usize>>, m: int)
    requires
        forall|j: int| 0 <= j < m ==> is_twin_target(a, j) == is_twin_target(b, j),
    ensures
        subplot_positions_upto(a, m) == subplot_positions_upto(b, m),
    decreases m,
{
    if m > 0 {
        lemma_subplot_positions_same(a, b, m - 1);
    }
}

/// The twin map after the axes at `parent` gets the twin `t`: padded with
/// empty entries up to `parent`, then entry `parent` set to `t`.
pub open spec fn twin_map_with(twin_map: Seq<Option<usize>>, parent: int, t: int) -> Seq<Option<usize>> {
    let padded = if parent < twin_map.len() {
        twin_map
    } else {
        twin_map + Seq::new((parent + 1 - twin_map.len()) as nat, |i: int| None::<usize>)
    };
    padded.update(parent, Some(t as usize))
}

/// Axes appended past `m` that are not twins become the next subplots.
pub proof fn lemma_subplot_positions_extend(twin_map: Seq<Option<usize>>, m: int, m2: int)
    requires
        0 <= m <= m2,
        forall|j: int| m <= j < m2 ==> !is_twin_target(twin_map, j),
    ensures
        subplot_positions_upto(twin_map, m2) == subplot_positions_upto(twin_map, m) + Seq::new(
            (m2 - m) as nat,
            |t: int| m + t,
        ),
    decreases m2 - m,
{
    if m2 > m {
        lemma_subplot_positions_extend(twin_map, m, m2 - 1);
        assert(subplot_positions_upto(twin_map, m2) =~= subplot_positions_upto(twin_map, m) + Seq::new(
            (m2 - m) as nat,
            |t: int| m + t,
        ));
    } else {
        assert(subplot_positions_upto(twin_map, m) + Seq::new((m2 - m) as nat, |t: int| m + t)
            =~= subplot_positions_upto(twin_map, m));
    }
}

/// A twin map for `n` axes is well formed: every twin is an axes after its
/// parent, and no axes is the twin of two parents.
pub open spec fn twin_map_well_formed(twin_map: Seq<Option<usize>>, n: int) -> bool {
    &&& forall|i: int|
        0 <= i < twin_map.len() ==> match #[trigger] twin_map[i] {
            Some(j) => i < j < n,
            None => true,
        }
    &&& forall|i: int, k: int|
        0 <= i < twin_map.len() && 0 <= k < twin_map.len() && #[trigger] twin_map[i] is Some
            && twin_map[i] == #[trigger] twin_map[k] ==> i == k
}

/// A figure is the top-level container for one or more axes (subplots).
///
/// `Figure` owns its axes directly; [`add_subplot`](Figure::add_subplot)
/// returns `&mut A`, and the borrow checker enforces single-axes mutation.
#[derive(Debug)]
pub struct Figure<A> {
    /// The subplot axes owned by this figure, stored in insertion order.
    axes: Vec<A>,
    /// Width of the output image in pixels.
    width: u32,
    /// Height of the output image in pixels.
    height: u32,
    /// Optional overall title displayed above all subplots.
    suptitle: Option<String>,
    /// Subplot grid dimensions `(nrows, ncols)`, set by `add_subplot`.
    subplot_grid: Option<(usize, usize)>,
    /// `twin_map[i] = Some(j)` means axes `j` is a twin of axes `i`.
    twin_map: Vec<Option<usize>>,
}

impl<A> Figure<A> {
    /// The axes of the figure, in insertion order.
    pub closed spec fn axes_seq(&self) -> Seq<A> {
        self.axes@
    }

    /// The output dimensions `(width, height)` in pixels.
    pub closed spec fn size(&self) -> (u32, u32) {
        (self.width, self.height)
    }

    /// The characters of the super-title, if one is set.
    pub closed spec fn title_text(&self) -> Option<Seq<char>> {
        match self.suptitle {
            Some(t) => Some(t@),
            None => None,
        }
    }

    /// The subplot grid `(nrows, ncols)`, once a subplot has been added.
    pub closed spec fn grid(&self) -> Option<(usize, usize)> {
        self.subplot_grid
    }

    /// The entries of the twin relation: entry `i` is the twin of axes `i`.
    pub closed spec fn twin_entries(&self) -> Seq<Option<usize>> {
        self.twin_map@
    }

    /// The positions of the figure's subplots: its axes that are not twins,
    /// in order.
    pub open spec fn subplot_positions(&self) -> Seq<int> {
        subplot_positions_upto(self.twin_entries(), self.axes_seq().len() as int)
    }

    /// The figure's own invariant: its twin relation is well formed and a
    /// grid, once set, is non-empty and its cell count fits in `usize`.
    #[verifier::type_invariant]
    spec fn figure_invariant(self) -> bool {
        &&& twin_map_well_formed(self.twin_map@, self.axes@.len() as int)
        &&& self.subplot_grid matches Some((r, c)) ==> r > 0 && c > 0 && r * c <= usize::MAX
    }

    /// The twin of axes `i`, if it has one.
    pub closed spec fn twin(&self, i: int) -> Option<usize> {
        if 0 <= i < self.twin_map@.len() {
            self.twin_map@[i]
        } else {
            None
        }
    }

    /// Everything but the axes list and the grid is as in `o`.
    pub open spec fn same_frame(&self, o: &Self) -> bool {
        &&& self.size() == o.size()
        &&& self.title_text() == o.title_text()
        &&& forall|i: int| #[trigger] self.twin(i) == o.twin(i)
    }

    /// The twin relation is well formed: every twin is an axes of the figure
    /// that comes after its parent, and no axes is the twin of two parents.
    pub open spec fn twins_well_formed(&self) -> bool {
        &&& forall|i: int|
            #![trigger self.twin(i)]
            match self.twin(i) {
                Some(j) => 0 <= i < j < self.axes_seq().len(),
                None => true,
            }
        &&& forall|i: int, k: int|
            #![trigger self.twin(i), self.twin(k)]
            self.twin(i) is Some && self.twin(i) == self.twin(k) ==> i == k
    }

}

impl<A: SubplotAxes> Figure<A> {
    /// Creates a new figure with default dimensions (800 x 600 pixels).
    pub fn new() -> (f: Self)
        ensures
            f.axes_seq().len() == 0,
            f.size() == (DEFAULT_WIDTH, DEFAULT_HEIGHT),
            f.title_text() is None,
            f.grid() is None,
            forall|i: int| #[trigger] f.twin(i) is None,
            f.twin_entries().len() == 0,
            f.twins_well_formed(),
    {
        Figure::with_size(DEFAULT_WIDTH, DEFAULT_HEIGHT)
    }

    /// Creates a new figure with the specified dimensions in pixels.
    pub fn with_size(width: u32, height: u32) -> (f: Self)
        ensures
            f.axes_seq().len() == 0,
            f.size() == (width, height),
            f.title_text() is None,
            f.grid() is None,
            forall|i: int| #[trigger] f.twin(i) is None,
            f.twin_entries().len() == 0,
            f.twins_well_formed(),
    {
        Figure {
            axes: Vec::new(),
            width,
            height,
            suptitle: None,
            subplot_grid: None,
            twin_map: Vec::new(),
        }
    }

    /// Returns the figure width in pixels.
    pub fn width(&self) -> (w: u32)
        ensures
            w == self.size().0,
    {
        self.width
    }

    /// Returns the super-title, if one is set.
    pub fn suptitle_text(&self) -> (t: Option<&String>)
        ensures
            t is None <==> self.title_text() is None,
            t matches Some(x) ==> self.title_text() == Some(x@),
    {
        match &self.suptitle {
            Some(x) => Some(x),
            None => None,
        }
    }

    /// Returns the subplot grid `(nrows, ncols)`, once a subplot has been added.
    pub fn subplot_grid(&self) -> (g: Option<(usize, usize)>)
        ensures
            g == self.grid(),
    {
        self.subplot_grid
    }

    /// Returns the figure height in pixels.
    pub fn height(&self) -> (h: u32)
        ensures
            h == self.size().1,
    {
        self.height
    }

    /// Adds a subplot and returns a mutable reference to it.
    ///
    /// Uses 1-based indexing in matplotlib style: `(nrows, ncols, index)`,
    /// counting across rows first. Subplots are the figure's axes that are
    /// not twins, in order. If a subplot already exists at `index`, it is
    /// returned without creating a duplicate. Otherwise new axes are
    /// appended until there are `index` subplots, so positional indexing
    /// stays consistent even when indices are skipped, and the last one is
    /// returned. The grid dimensions are set to the latest request.
    pub fn add_subplot(&mut self, nrows: usize, ncols: usize, index: usize) -> (ax: &mut A)
        requires
            nrows > 0,
            ncols > 0,
            index >= 1,
            nrows * ncols <= usize::MAX,
            index <= nrows * ncols,
        ensures
            final(self).grid() == Some((nrows, ncols)),
            final(self).same_frame(old(self)),
            final(self).twin_entries() == old(self).twin_entries(),
            final(self).axes_seq().len() == if index <= old(self).subplot_positions().len() {
                old(self).axes_seq().len() as int
            } else {
                old(self).axes_seq().len() + index - old(self).subplot_positions().len()
            },
            final(self).subplot_positions().len() == if index <= old(self).subplot_positions().len() {
                old(self).subplot_positions().len() as int
            } else {
                index as int
            },
            forall|q: int|
                0 <= q < old(self).subplot_positions().len() ==> #[trigger] final(self).subplot_positions()[q] == old(self).subplot_positions()[q],
            index > old(self).subplot_positions().len() ==> final(self).subplot_positions()[index - 1]
                == final(self).axes_seq().len() - 1,
            !is_twin_target(final(self).twin_entries(), final(self).subplot_positions()[index - 1]),
            final(self).axes_seq()[final(self).subplot_positions()[index - 1]] == *final(ax),
            index <= old(self).subplot_positions().len() ==> *ax == old(self).axes_seq()[old(self).subplot_positions()[index - 1]],
            index > old(self).subplot_positions().len() ==> call_ensures(A::new_axes, (), *ax),
            forall|j: int|
                0 <= j < old(self).axes_seq().len() && j != final(self).subplot_positions()[index - 1]
                    ==> #[trigger] final(self).axes_seq()[j] == old(self).axes_seq()[j],
            forall|j: int|
                old(self).axes_seq().len() <= j < final(self).axes_seq().len() && j != final(self).subplot_positions()[index - 1] ==> call_ensures(
                    A::new_axes,
                    (),
                    #[trigger] final(self).axes_seq()[j],
                ),
    {
        proof {
            use_type_invariant(&*self);
        }
        self.subplot_grid = Some((nrows, ncols));
        let positions = self.subplot_position_list();
        proof {
            lemma_subplot_positions(self.twin_map@, self.axes@.len() as int);
            assert(self.subplot_positions() == subplot_positions_upto(
                self.twin_map@,
                self.axes@.len() as int,
            ));
        }
        let k = positions.len();
        if index <= k {
            let p = positions[index - 1];
            assert(p == self.subplot_positions()[index - 1]);
            return &mut self.axes[p];
        }
        let ghost pre = *self;
        let ghost tm0 = self.twin_map@;
        let n = self.axes.len();
        let mut tm: Vec<Option<usize>> = Vec::new();
        std::mem::swap(&mut tm, &mut self.twin_map);
        let mut axes: Vec<A> = Vec::new();
        std::mem::swap(&mut axes, &mut self.axes);
        let mut added = k;
        while added < index
            invariant
                k <= added <= index,
                n == pre.axes@.len(),
                axes@.len() == n + (added - k),
                forall|j: int| 0 <= j < n ==> axes@[j] == pre.axes@[j],
                forall|j: int| n <= j < axes@.len() ==> call_ensures(A::new_axes, (), #[trigger] axes@[j]),
            decreases index - added,
        {
            axes.push(A::new_axes());
            added = added + 1;
        }
        proof {
            assert forall|j: int| n <= j implies !is_twin_target(tm0, j) by {
                if is_twin_target(tm0, j) {
                    let q = choose|q: int| 0 <= q < tm0.len() && (#[trigger] tm0[q] matches Some(t) && t == j);
                    assert(match tm0[q] {
                        Some(t) => q < t < n,
                        None => true,
                    });
                }
            }
            lemma_subplot_positions_extend(tm0, n as int, axes@.len() as int);
        }
        std::mem::swap(&mut axes, &mut self.axes);
        proof {
            assert forall|i: int| 0 <= i < tm0.len() implies match #[trigger] tm0[i] {
                Some(j) => i < j < self.axes@.len(),
                None => true,
            } by {}
        }
        std::mem::swap(&mut tm, &mut self.twin_map);
        let last = self.axes.len() - 1;
        &mut self.axes[last]
    }

    /// Sets the overall figure title (super-title), displayed above all
    /// subplots. Super/subscript markup in `title` is resolved.
    pub fn suptitle(&mut self, title: &str) -> (f: &mut Self)
        ensures
            f.title_text() == Some(markup(title@)),
            f.axes_seq() == old(self).axes_seq(),
            f.size() == old(self).size(),
            f.grid() == old(self).grid(),
            forall|i: int| #[trigger] f.twin(i) == old(self).twin(i),
            old(self).twins_well_formed() ==> f.twins_well_formed(),
            *final(self) == *final(f),
    {
        proof {
            use_type_invariant(&*self);
        }
        self.suptitle = Some(format_markup(title));
        assert(forall|i: int| #[trigger] self.twin(i) == old(self).twin(i));
        self
    }

    /// Adjusts subplot spacing so labels do not overlap. Layout is computed
    /// from scratch on every render, so this leaves the figure unchanged.
    pub fn tight_layout(&mut self) -> (f: &mut Self)
        ensures
            *f == *old(self),
            *final(self) == *final(f),
    {
        self
    }

    /// Returns mutable access to the axes at `index` (0-based), or `None`
    /// if `index` is out of bounds.
    pub fn axes_mut(&mut self, index: usize) -> (ax: Option<&mut A>)
        ensures
            index < old(self).axes_seq().len() ==> (ax matches Some(a) && *a == old(self).axes_seq()[index as int] && final(self).axes_seq() == old(self).axes_seq().update(
                index as int,
                *final(a),
            )),
            index >= old(self).axes_seq().len() ==> ax is None && final(self).axes_seq() == old(self).axes_seq(),
            final(self).grid() == old(self).grid(),
            final(self).same_frame(old(self)),
    {
        proof {
            use_type_invariant(&*self);
        }
        if index < self.axes.len() {
            Some(&mut self.axes[index])
        } else {
            None
        }
    }

    /// Returns a shared reference to the axes at `index` (0-based), or
    /// `None` if `index` is out of bounds.
    pub fn axes(&self, index: usize) -> (ax: Option<&A>)
        ensures
            index < self.axes_seq().len() ==> ax == Some(&self.axes_seq()[index as int]),
            index >= self.axes_seq().len() ==> ax is None,
    {
        if index < self.axes.len() {
            Some(&self.axes[index])
        } else {
            None
        }
    }

    /// Returns the number of axes (subplots) in this figure.
    pub fn num_axes(&self) -> (n: usize)
        ensures
            n == self.axes_seq().len(),
    {
        self.axes.len()
    }

    /// Creates a new figure with an `nrows × ncols` subplot grid; axes are
    /// added in row-major order (index 0 = top-left).
    pub fn subplots(nrows: usize, ncols: usize) -> (f: Self)
        requires
            nrows > 0,
            ncols > 0,
            nrows * ncols <= usize::MAX,
        ensures
            f.axes_seq().len() == nrows * ncols,
            f.size() == (DEFAULT_WIDTH, DEFAULT_HEIGHT),
            f.title_text() is None,
            f.grid() == Some((nrows, ncols)),
            forall|i: int| #[trigger] f.twin(i) is None,
            f.twins_well_formed(),
            f.subplot_positions().len() == nrows * ncols,
            forall|j: int|
                0 <= j < f.axes_seq().len() ==> call_ensures(A::new_axes, (), #[trigger] f.axes_seq()[j]),
    {
        Figure::subplots_with_size(nrows, ncols, DEFAULT_WIDTH, DEFAULT_HEIGHT)
    }

    /// Creates a new figure with an `nrows × ncols` subplot grid and custom size.
    pub fn subplots_with_size(nrows: usize, ncols: usize, width: u32, height: u32) -> (f: Self)
        requires
            nrows > 0,
            ncols > 0,
            nrows * ncols <= usize::MAX,
        ensures
            f.axes_seq().len() == nrows * ncols,
            f.size() == (width, height),
            f.title_text() is None,
            f.grid() == Some((nrows, ncols)),
            forall|i: int| #[trigger] f.twin(i) is None,
            f.twins_well_formed(),
            f.subplot_positions().len() == nrows * ncols,
            forall|j: int|
                0 <= j < f.axes_seq().len() ==> call_ensures(A::new_axes, (), #[trigger] f.axes_seq()[j]),
    {
        let mut fig = Figure::with_size(width, height);
        proof {
            lemma_subplot_positions(fig.twin_entries(), 0);
            assert(fig.twin_entries().len() == 0);
        }
        let total = nrows * ncols;
        let mut i: usize = 0;
        assert(total >= 1) by (nonlinear_arith)
            requires
                nrows > 0,
                ncols > 0,
                total == nrows * ncols,
        ;
        while i < total
            invariant
                0 <= i <= total,
                total == nrows * ncols,
                total <= usize::MAX,
                fig.axes_seq().len() == i,
                fig.twin_entries().len() == 0,
                fig.subplot_positions().len() == i,
                fig.size() == (width, height),
                fig.title_text() is None,
                i > 0 ==> fig.grid() == Some((nrows, ncols)),
                forall|k: int| #[trigger] fig.twin(k) is None,
                forall|j: int|
                    0 <= j < fig.axes_seq().len() ==> call_ensures(
                        A::new_axes,
                        (),
                        #[trigger] fig.axes_seq()[j],
                    ),
            decreases total - i,
        {
            let ghost prev = fig;
            fig.add_subplot(nrows, ncols, i + 1);
            assert forall|k: int| #[trigger] fig.twin(k) is None by {
                assert(fig.twin(k) == prev.twin(k));
            }
            i = i + 1;
        }
        fig
    }

    /// 2D indexing into the subplot grid: the axes at `row * ncols + col`,
    /// or `None` if out of bounds.
    pub fn axes_grid(&mut self, row: usize, col: usize, ncols: usize) -> (ax: Option<&mut A>)
        requires
            row * ncols + col <= usize::MAX,
        ensures
            ({
                let index = row * ncols + col;
                &&& index < old(self).axes_seq().len() ==> (ax matches Some(a) && *a == old(self).axes_seq()[index] && final(self).axes_seq() == old(self).axes_seq().update(
                    index,
                    *final(a),
                ))
                &&& index >= old(self).axes_seq().len() ==> ax is None && final(self).axes_seq()
                    == old(self).axes_seq()
            }),
            final(self).grid() == old(self).grid(),
            final(self).same_frame(old(self)),
    {
        assert(row * ncols <= row * ncols + col);
        self.axes_mut(row * ncols + col)
    }

    /// Creates a twin axes that shares the x-axis of the axes at
    /// `parent_index` but has an independent y-axis drawn on the right side.
    pub fn twinx(&mut self, parent_index: usize) -> (ax: &mut A)
        requires
            parent_index < old(self).axes_seq().len(),
            old(self).twin(parent_index as int) is None,
            old(self).axes_seq().len() < usize::MAX,
        ensures
            final(self).is_twin_added(old(self), parent_index as int),
            final(self).axes_seq().last() == *final(ax),
            exists|ci: usize|
                call_ensures(A::color_index, (&old(self).axes_seq()[parent_index as int],), ci)
                    && call_ensures(A::new_twin_axes, (TwinSide::Right, ci), *ax),
    {
        self.add_twin(parent_index, TwinSide::Right)
    }

    /// Creates a twin axes that shares the y-axis of the axes at
    /// `parent_index` but has an independent x-axis drawn on the top side.
    pub fn twiny(&mut self, parent_index: usize) -> (ax: &mut A)
        requires
            parent_index < old(self).axes_seq().len(),
            old(self).twin(parent_index as int) is None,
            old(self).axes_seq().len() < usize::MAX,
        ensures
            final(self).is_twin_added(old(self), parent_index as int),
            final(self).axes_seq().last() == *final(ax),
            exists|ci: usize|
                call_ensures(A::color_index, (&old(self).axes_seq()[parent_index as int],), ci)
                    && call_ensures(A::new_twin_axes, (TwinSide::Top, ci), *ax),
    {
        self.add_twin(parent_index, TwinSide::Top)
    }

    /// `self` is `o` with one new axes appended as the twin of `parent`:
    /// every earlier axes and every other twin relation are kept.
    pub open spec fn is_twin_added(&self, o: &Self, parent: int) -> bool {
        let n = o.axes_seq().len();
        &&& self.axes_seq().len() == n + 1
        &&& self.axes_seq().take(n as int) == o.axes_seq()
        &&& self.twin(parent) == Some(n as usize)
        &&& forall|i: int| i != parent ==> #[trigger] self.twin(i) == o.twin(i)
        &&& self.twin_entries() == twin_map_with(o.twin_entries(), parent, n as int)
        &&& self.subplot_positions() == o.subplot_positions()
        &&& self.size() == o.size()
        &&& self.title_text() == o.title_text()
        &&& self.grid() == o.grid()
    }

    /// Creates a twin axes of the given side for the axes at `parent_index`.
    fn add_twin(&mut self, parent_index: usize, side: TwinSide) -> (ax: &mut A)
        requires
            parent_index < old(self).axes_seq().len(),
            old(self).twin(parent_index as int) is None,
            old(self).axes_seq().len() < usize::MAX,
        ensures
            final(self).is_twin_added(old(self), parent_index as int),
            final(self).axes_seq().last() == *final(ax),
            exists|ci: usize|
                call_ensures(A::color_index, (&old(self).axes_seq()[parent_index as int],), ci)
                    && call_ensures(A::new_twin_axes, (side, ci), *ax),
    {
        proof {
            use_type_invariant(&*self);
        }
        let ghost pre = *self;
        let ghost old_map = self.twin_map@;
        let mut tm: Vec<Option<usize>> = Vec::new();
        std::mem::swap(&mut tm, &mut self.twin_map);
        let mut axes: Vec<A> = Vec::new();
        std::mem::swap(&mut axes, &mut self.axes);
        while tm.len() <= parent_index
            invariant
                axes@ == pre.axes@,
                old_map == pre.twin_map@,
                parent_index < axes@.len(),
                pre.twin(parent_index as int) is None,
                tm@.len() >= old_map.len(),
                forall|i: int| 0 <= i < old_map.len() ==> tm@[i] == old_map[i],
                forall|i: int| old_map.len() <= i < tm@.len() ==> tm@[i] is None,
                tm@.len() <= parent_index + 1 || tm@.len() == old_map.len(),
            decreases parent_index + 1 - tm@.len(),
        {
            tm.push(None);
        }
        let parent_color_index = axes[parent_index].color_index();
        let twin = A::new_twin_axes(side, parent_color_index);
        let twin_index = axes.len();
        axes.push(twin);
        tm.set(parent_index, Some(twin_index));
        proof {
            assert forall|i: int| 0 <= i < tm@.len() implies match #[trigger] tm@[i] {
                Some(j) => i < j < axes@.len(),
                None => true,
            } by {
                if i != parent_index && i < old_map.len() {
                    assert(tm@[i] == old_map[i]);
                }
            }
            assert forall|i: int, k: int|
                0 <= i < tm@.len() && 0 <= k < tm@.len() && #[trigger] tm@[i] is Some && tm@[i]
                    == #[trigger] tm@[k] implies i == k by {
                if i != parent_index && i < old_map.len() {
                    assert(tm@[i] == old_map[i]);
                }
                if k != parent_index && k < old_map.len() {
                    assert(tm@[k] == old_map[k]);
                }
            }
        }
        proof {
            let n = pre.axes@.len() as int;
            assert(tm@ =~= twin_map_with(old_map, parent_index as int, n));
            assert forall|j: int| 0 <= j < n implies is_twin_target(tm@, j) == is_twin_target(old_map, j) by {
                if is_twin_target(tm@, j) {
                    let q = choose|q: int| 0 <= q < tm@.len() && (#[trigger] tm@[q] matches Some(t) && t == j);
                    assert(q != parent_index);
                    assert(q < old_map.len() && old_map[q] == tm@[q]);
                }
                if is_twin_target(old_map, j) {
                    let q = choose|q: int| 0 <= q < old_map.len() && (#[trigger] old_map[q] matches Some(t) && t == j);
                    assert(pre.twin(q) == old_map[q]);
                    assert(q != parent_index);
                    assert(tm@[q] == old_map[q]);
                }
            }
            lemma_subplot_positions_same(tm@, old_map, n);
            assert(tm@[parent_index as int] matches Some(t) && t == n);
            assert(is_twin_target(tm@, n));
        }
        std::mem::swap(&mut axes, &mut self.axes);
        std::mem::swap(&mut tm, &mut self.twin_map);
        assert(self.axes@.take(pre.axes@.len() as int) =~= pre.axes@);
        assert forall|i: int| i != parent_index implies #[trigger] self.twin(i) == pre.twin(i) by {}
        assert forall|x: A| #[trigger] self.axes@.update(twin_index as int, x).take(
            twin_index as int,
        ) == pre.axes@ by {
            assert(self.axes@.update(twin_index as int, x).take(twin_index as int) =~= pre.axes@);
        }
        &mut self.axes[twin_index]
    }

    /// Returns the twin axes index for a given parent axes index, if one exists.
    pub fn twin_of(&self, parent_index: usize) -> (t: Option<usize>)
        ensures
            t == self.twin(parent_index as int),
    {
        if parent_index < self.twin_map.len() {
            self.twin_map[parent_index]
        } else {
            None
        }
    }

    /// The number of subplot cells: `nrows * ncols` of the grid, or a single
    /// cell when no grid has been set.
    pub open spec fn cells(&self) -> int {
        match self.grid() {
            Some((nrows, ncols)) => nrows * ncols,
            None => 1,
        }
    }

    /// Returns the positions of the subplots (the axes that are not twins),
    /// in order.
    fn subplot_position_list(&self) -> (v: Vec<usize>)
        ensures
            v@.len() == self.subplot_positions().len(),
            forall|k: int| 0 <= k < v@.len() ==> v@[k] as int == #[trigger] self.subplot_positions()[k],
    {
        let n = self.axes.len();
        let mut twin_mask: Vec<bool> = Vec::new();
        let mut i: usize = 0;
        while i < n
            invariant
                i <= n,
                n == self.axes@.len(),
                twin_mask@.len() == i,
                forall|j: int| 0 <= j < i ==> !twin_mask@[j],
            decreases n - i,
        {
            twin_mask.push(false);
            i = i + 1;
        }
        let mut k: usize = 0;
        while k < self.twin_map.len()
            invariant
                k <= self.twin_map@.len(),
                n == self.axes@.len(),
                twin_mask@.len() == n,
                forall|j: int|
                    0 <= j < n ==> (#[trigger] twin_mask@[j] <==> exists|q: int|
                        0 <= q < k && self.twin_map@[q] == Some(j as usize)),
            decreases self.twin_map@.len() - k,
        {
            if let Some(t) = self.twin_map[k] {
                if t < n {
                    twin_mask.set(t, true);
                }
            }
            k = k + 1;
        }
        let ghost tm = self.twin_entries();
        assert forall|j: int| 0 <= j < n implies (twin_mask@[j] <==> is_twin_target(tm, j)) by {
            if twin_mask@[j] {
                let q = choose|q: int| 0 <= q < k && self.twin_map@[q] == Some(j as usize);
                assert(tm[q] == Some(j as usize));
                assert(tm[q] matches Some(t) && t == j);
            }
        }
        let mut v: Vec<usize> = Vec::new();
        let mut i: usize = 0;
        while i < n
            invariant
                i <= n,
                n == self.axes@.len(),
                tm == self.twin_entries(),
                twin_mask@.len() == n,
                forall|j: int| 0 <= j < n ==> (#[trigger] twin_mask@[j] <==> is_twin_target(tm, j)),
                v@.len() == subplot_positions_upto(tm, i as int).len(),
                forall|q: int|
                    0 <= q < v@.len() ==> v@[q] as int == #[trigger] subplot_positions_upto(
                        tm,
                        i as int,
                    )[q],
            decreases n - i,
        {
            if !twin_mask[i] {
                v.push(i);
            }
            i = i + 1;
        }
        v
    }

    /// Decides which axes a render of the figure draws, and in which order:
    /// the subplots, in order, each in its own cell of the grid (as many as
    /// there are cells), each with its twin, which is drawn over it in the
    /// same cell (sharing one legend). Twin axes are drawn only with their
    /// parent.
    pub fn render_plan(&self) -> (plan: Vec<(usize, Option<usize>)>)
        ensures
            plan@.len() == if self.subplot_positions().len() < self.cells() {
                self.subplot_positions().len() as int
            } else {
                self.cells()
            },
            forall|k: int|
                0 <= k < plan@.len() ==> #[trigger] plan@[k] == (
                    self.subplot_positions()[k] as usize,
                    self.twin(self.subplot_positions()[k]),
                ),
            self.grid() matches Some((r, c)) ==> plan@.len() == if self.subplot_positions().len()
                < r * c {
                self.subplot_positions().len() as int
            } else {
                r * c
            },
            self.grid() is None ==> plan@.len() == if self.subplot_positions().len() == 0 {
                0int
            } else {
                1
            },
    {
        proof {
            use_type_invariant(self);
        }
        let cells: usize = match self.subplot_grid {
            Some((nrows, ncols)) => nrows * ncols,
            None => 1,
        };
        let positions = self.subplot_position_list();
        let m = if positions.len() < cells {
            positions.len()
        } else {
            cells
        };
        let mut plan: Vec<(usize, Option<usize>)> = Vec::new();
        let mut k: usize = 0;
        while k < m
            invariant
                k <= m <= positions@.len(),
                positions@.len() == self.subplot_positions().len(),
                forall|q: int|
                    0 <= q < positions@.len() ==> positions@[q] as int
                        == #[trigger] self.subplot_positions()[q],
                plan@.len() == k,
                forall|q: int|
                    0 <= q < k ==> #[trigger] plan@[q] == (
                        self.subplot_positions()[q] as usize,
                        self.twin(self.subplot_positions()[q]),
                    ),
            decreases m - k,
        {
            let p = positions[k];
            plan.push((p, self.twin_of(p)));
            k = k + 1;
        }
        plan
    }
}

/// A figure has one cell per grid position: `nrows * ncols` once a grid is
/// set, and a single cell before.
pub proof fn lemma_cells_of_grid<A: SubplotAxes>(f: &Figure<A>)
    ensures
        f.grid() matches Some((r, c)) ==> f.cells() == r * c,
        f.grid() is None ==> f.cells() == 1,
{
}

/// Where the shared legend of an axes and its twin is drawn: nowhere unless
/// one of them shows a legend, at the parent's location when the parent
/// shows one, and at the twin's otherwise.
pub fn twin_legend_loc(parent_shows: bool, parent_loc: Loc, twin_shows: bool, twin_loc: Loc) -> (loc:
    Option<Loc>)
    ensures
        loc == if parent_shows {
            Some(parent_loc)
        } else if twin_shows {
            Some(twin_loc)
        } else {
            None
        },
{
    if parent_shows {
        Some(parent_loc)
    } else if twin_shows {
        Some(twin_loc)
    } else {
        None
    }
}

/// The twin relation stays well formed when the axes list grows or its axes
/// change while the twin relation is kept, as by `add_subplot`, `axes_mut`,
/// `axes_grid` and `suptitle`.
pub proof fn lemma_twins_kept<A: SubplotAxes>(before: &Figure<A>, after: &Figure<A>)
    requires
        after.axes_seq().len() >= before.axes_seq().len(),
        forall|i: int| #[trigger] after.twin(i) == before.twin(i),
    ensures
        before.twins_well_formed() ==> after.twins_well_formed(),
{
    if before.twins_well_formed() {
        assert forall|i: int|
            match #[trigger] after.twin(i) {
                Some(j) => 0 <= i < j < after.axes_seq().len(),
                None => true,
            } by {
            assert(after.twin(i) == before.twin(i));
        }
        assert forall|i: int, k: int|
            #[trigger] after.twin(i) is Some && after.twin(i) == #[trigger] after.twin(k) implies i == k by {
            assert(after.twin(i) == before.twin(i));
            assert(after.twin(k) == before.twin(k));
        }
    }
}

/// Adding a twin keeps the twin relation well formed, as by `twinx` and
/// `twiny`: the new twin is the last axes, after its parent, and no other
/// parent has it.
pub proof fn lemma_twin_added_keeps_well_formed<A: SubplotAxes>(
    before: &Figure<A>,
    after: &Figure<A>,
    parent: int,
)
    requires
        before.twins_well_formed(),
        0 <= parent < before.axes_seq().len() < usize::MAX,
        after.is_twin_added(before, parent),
    ensures
        after.twins_well_formed(),
{
    let n = before.axes_seq().len();
    assert(after.twin(parent) == Some(n as usize));
    assert forall|i: int|
        match #[trigger] after.twin(i) {
            Some(j) => 0 <= i < j < after.axes_seq().len(),
            None => true,
        } by {
        if i != parent {
            assert(after.twin(i) == before.twin(i));
        }
    }
    assert forall|i: int, k: int|
        #[trigger] after.twin(i) is Some && after.twin(i) == #[trigger] after.twin(k) implies i == k by {
        if i != parent {
            assert(after.twin(i) == before.twin(i));
            assert(match before.twin(i) {
                Some(j) => 0 <= i < j < n,
                None => true,
            });
        }
        if k != parent {
            assert(after.twin(k) == before.twin(k));
            assert(match before.twin(k) {
                Some(j) => 0 <= k < j < n,
                None => true,
            });
        }
    }
}

impl<A: SubplotAxes> Default for Figure<A> {
    /// The default figure: 800 x 600 pixels, no axes.
    fn default() -> (f: Self)
        ensures
            f.axes_seq().len() == 0,
            f.size() == (DEFAULT_WIDTH, DEFAULT_HEIGHT),
            f.title_text() is None,
            f.grid() is None,
            forall|i: int| #[trigger] f.twin(i) is None,
            f.twins_well_formed(),
    {
        Figure::new()
    }
}

} // verus!
