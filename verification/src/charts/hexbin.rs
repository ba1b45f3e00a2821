//! Hexbin chart configuration and the exact part of hexagonal binning.
//!
//! Binning converts every finite `(x, y)` point to the axial coordinates of
//! the flat-top hexagon that contains it; that conversion works on
//! floating-point coordinates and happens beside the renderer. What follows
//! it is exact and stands here: counting the points that fall in each cell,
//! keeping the cells with at least `mincnt` points, and finding the extreme
//! counts ([`count_hex_cells`]).

use vstd::prelude::*;
use crate::colormap::Colormap;
use crate::primitives::Color;

verus! {

// ---------------------------------------------------------------------------
// Configuration
// ---------------------------------------------------------------------------

/// The exact settings of a hexbin chart. The `(x, y)` samples and the
/// opacity are floating-point values held beside it by the renderer.
#[derive(Debug, Clone)]
pub struct HexbinArtist {
    /// Number of hexagons across the x-axis.
    pub gridsize: usize,
    /// Colormap used to map bin counts to colors.
    pub cmap: Colormap,
    /// Minimum count threshold; bins with fewer points are hidden.
    pub mincnt: usize,
    /// Primary color (used for the legend swatch).
    pub color: Color,
    /// Optional legend label.
    pub label: Option<String>,
    /// Optional hexagon edge (stroke) color.
    pub edgecolor: Option<Color>,
    /// Whether to auto-attach a colorbar when this hexbin is drawn.
    pub show_colorbar: bool,
}

impl HexbinArtist {
    /// Every setting but the one a builder changes is kept.
    pub open spec fn same_except_gridsize(&self, o: &Self) -> bool {
        &&& self.cmap == o.cmap
        &&& self.mincnt == o.mincnt
        &&& self.color == o.color
        &&& self.label == o.label
        &&& self.edgecolor == o.edgecolor
        &&& self.show_colorbar == o.show_colorbar
    }

    /// Sets the number of hexagons across the x-axis.
    pub fn gridsize(&mut self, gridsize: usize) -> (r: &mut Self)
        ensures
            r.gridsize == gridsize,
            r.same_except_gridsize(old(self)),
            *final(self) == *final(r),
    {
        self.gridsize = gridsize;
        self
    }

    /// Sets the colormap used to map bin counts to colors.
    pub fn colormap(&mut self, cmap: Colormap) -> (r: &mut Self)
        ensures
            r.cmap == cmap,
            r.gridsize == old(self).gridsize,
            r.mincnt == old(self).mincnt,
            r.color == old(self).color,
            r.label == old(self).label,
            r.edgecolor == old(self).edgecolor,
            r.show_colorbar == old(self).show_colorbar,
            *final(self) == *final(r),
    {
        self.cmap = cmap;
        self
    }

    /// Sets the minimum count threshold; bins with fewer points are hidden.
    pub fn mincnt(&mut self, mincnt: usize) -> (r: &mut Self)
        ensures
            r.mincnt == mincnt,
            r.gridsize == old(self).gridsize,
            r.cmap == old(self).cmap,
            r.color == old(self).color,
            r.label == old(self).label,
            r.edgecolor == old(self).edgecolor,
            r.show_colorbar == old(self).show_colorbar,
            *final(self) == *final(r),
    {
        self.mincnt = mincnt;
        self
    }

    /// Sets the legend label.
    pub fn label(&mut self, label: &str) -> (r: &mut Self)
        ensures
            r.label matches Some(l) && l@ == label@,
            r.gridsize == old(self).gridsize,
            r.cmap == old(self).cmap,
            r.mincnt == old(self).mincnt,
            r.color == old(self).color,
            r.edgecolor == old(self).edgecolor,
            r.show_colorbar == old(self).show_colorbar,
            *final(self) == *final(r),
    {
        self.label = Some(label.to_owned());
        self
    }

    /// Sets the hex edge (stroke) color.
    pub fn edgecolor(&mut self, color: Color) -> (r: &mut Self)
        ensures
            r.edgecolor == Some(color),
            r.gridsize == old(self).gridsize,
            r.cmap == old(self).cmap,
            r.mincnt == old(self).mincnt,
            r.color == old(self).color,
            r.label == old(self).label,
            r.show_colorbar == old(self).show_colorbar,
            *final(self) == *final(r),
    {
        self.edgecolor = Some(color);
        self
    }

    /// Enables or disables auto-attaching a colorbar when this hexbin is drawn.
    pub fn colorbar(&mut self, show: bool) -> (r: &mut Self)
        ensures
            r.show_colorbar == show,
            r.gridsize == old(self).gridsize,
            r.cmap == old(self).cmap,
            r.mincnt == old(self).mincnt,
            r.color == old(self).color,
            r.label == old(self).label,
            r.edgecolor == old(self).edgecolor,
            *final(self) == *final(r),
    {
        self.show_colorbar = show;
        self
    }
}

// ---------------------------------------------------------------------------
// Cell counting
// ---------------------------------------------------------------------------

/// A hex cell key for the flat-top hexagonal grid.
///
/// Axial coordinates (q, r) identify each hexagon. Two `i64` values give
/// exact, hash-friendly keys without floating-point comparison issues.
#[derive(Debug, Clone, Copy, Hash, PartialEq, Eq, Structural)]
pub struct HexCell {
    /// Axial q-coordinate (column).
    pub q: i64,
    /// Axial r-coordinate (row).
    pub r: i64,
}

/// The non-empty cells that survive the `mincnt` filter, each with the number
/// of points in it, and the extreme counts among them.
#[derive(Debug, Clone)]
pub struct HexCellCounts {
    /// Each kept cell once, with its point count.
    pub counts: Vec<(HexCell, usize)>,
    /// Maximum count across the kept cells (0 when none is kept).
    pub max_count: usize,
    /// Minimum count across the kept cells (0 when none is kept).
    pub min_count: usize,
}

/// The number of points of `s` that fall in cell `c`.
pub open spec fn occurrences(s: Seq<HexCell>, c: HexCell) -> nat
    decreases s.len(),
{
    if s.len() == 0 {
        0
    } else {
        occurrences(s.drop_last(), c) + if s.last() == c { 1nat } else { 0nat }
    }
}

/// The sum of the counts of a list of counted cells.
pub open spec fn total_count(s: Seq<(HexCell, usize)>) -> int
    decreases s.len(),
{
    if s.len() == 0 {
        0
    } else {
        total_count(s.drop_last()) + s.last().1
    }
}

/// Whether `counts` lists exactly the cells of `cells` that hold at least
/// one and at least `mincnt` points, each once and with its number of points.
pub open spec fn is_cell_count(cells: Seq<HexCell>, mincnt: nat, counts: Seq<(HexCell, usize)>) -> bool {
    &&& forall|j: int| 0 <= j < counts.len() ==> {
        &&& #[trigger] counts[j].1 == occurrences(cells, counts[j].0)
        &&& counts[j].1 >= 1
        &&& counts[j].1 >= mincnt
    }
    &&& forall|j: int, k: int| 0 <= j < k < counts.len() ==> counts[j].0 != counts[k].0
    &&& forall|c: HexCell| occurrences(cells, c) >= 1 && occurrences(cells, c) >= mincnt
        ==> exists|j: int| 0 <= j < counts.len() && #[trigger] counts[j].0 == c
}

/// Whether `max` and `min` are the largest and smallest counts of `counts`
/// (both 0 when it is empty).
pub open spec fn is_count_range(counts: Seq<(HexCell, usize)>, max: usize, min: usize) -> bool {
    if counts.len() == 0 {
        max == 0 && min == 0
    } else {
        &&& forall|j: int| 0 <= j < counts.len() ==> min <= #[trigger] counts[j].1 <= max
        &&& exists|j: int| 0 <= j < counts.len() && #[trigger] counts[j].1 == max
        &&& exists|j: int| 0 <= j < counts.len() && #[trigger] counts[j].1 == min
    }
}

/// Appending a point adds one to the count of its own cell only.
proof fn lemma_occurrences_push(s: Seq<HexCell>, x: HexCell, c: HexCell)
    ensures
        occurrences(s.push(x), c) == occurrences(s, c) + if x == c { 1nat } else { 0nat },
{
    assert(s.push(x).drop_last() =~= s);
}

/// A cell holds no more points than there are.
proof fn lemma_occurrences_bound(s: Seq<HexCell>, c: HexCell)
    ensures
        occurrences(s, c) <= s.len(),
    decreases s.len(),
{
    if s.len() > 0 {
        lemma_occurrences_bound(s.drop_last(), c);
    }
}

/// Raising one count by one raises the total by one.
proof fn lemma_total_count_increment(s: Seq<(HexCell, usize)>, j: int, v: usize)
    requires
        0 <= j < s.len(),
        v == s[j].1 + 1,
    ensures
        total_count(s.update(j, (s[j].0, v))) == total_count(s) + 1,
    decreases s.len(),
{
    let t = s.update(j, (s[j].0, v));
    if j == s.len() - 1 {
        assert(t.drop_last() =~= s.drop_last());
    } else {
        lemma_total_count_increment(s.drop_last(), j, v);
        assert(t.drop_last() =~= s.drop_last().update(j, (s[j].0, v)));
    }
}

/// The total of an appended list is the total plus the new count.
proof fn lemma_total_count_push(s: Seq<(HexCell, usize)>, x: (HexCell, usize))
    ensures
        total_count(s.push(x)) == total_count(s) + x.1,
{
    assert(s.push(x).drop_last() =~= s);
}

/// Returns the position of cell `c` in `counts`, if it is there.
fn find_cell(counts: &Vec<(HexCell, usize)>, c: HexCell) -> (p: Option<usize>)
    ensures
        p matches Some(j) ==> j < counts@.len() && counts@[j as int].0 == c,
        p is None ==> forall|j: int| 0 <= j < counts@.len() ==> #[trigger] counts@[j].0 != c,
{
    let n = counts.len();
    let mut j: usize = 0;
    while j < n
        invariant
            j <= n,
            n == counts@.len(),
            forall|k: int| 0 <= k < j ==> #[trigger] counts@[k].0 != c,
        decreases n - j,
    {
        if counts[j].0 == c {
            return Some(j);
        }
        j = j + 1;
    }
    None
}

/// Counts the points in each hex cell, keeps the cells with at least
/// `mincnt` points, and finds the largest and smallest kept counts.
///
/// `cells[i]` is the cell of the i-th finite data point. A cell appears in
/// the result only when at least one point falls in it, so with
/// `mincnt <= 1` every point is accounted for exactly once.
///
/// The counts are kept in a vector of `(cell, count)` pairs, in the order in
/// which the cells first occur, rather than in a hash map keyed by the
/// cell: the map's specification gives nothing provable for a key that is
/// a struct, and its iteration order is unspecified, whereas the vector lets
/// every count, the absence of duplicate cells and the totals be stated and
/// proved exactly.
pub fn count_hex_cells(cells: &Vec<HexCell>, mincnt: usize) -> (res: HexCellCounts)
    ensures
        is_cell_count(cells@, mincnt as nat, res.counts@),
        is_count_range(res.counts@, res.max_count, res.min_count),
        mincnt <= 1 ==> total_count(res.counts@) == cells@.len(),
{
    // Phase 1: count every cell that occurs.
    let n = cells.len();
    let mut all: Vec<(HexCell, usize)> = Vec::new();
    let mut i: usize = 0;
    while i < n
        invariant
            i <= n,
            n == cells@.len(),
            is_cell_count(cells@.take(i as int), 0, all@),
            total_count(all@) == i,
        decreases n - i,
    {
        let c = cells[i];
        let ghost before = cells@.take(i as int);
        let ghost after = cells@.take(i + 1);
        assert(after =~= before.push(c));
        proof {
            assert forall|d: HexCell| occurrences(after, d) == occurrences(before, d) + if c == d { 1nat } else { 0nat } by {
                lemma_occurrences_push(before, c, d);
            }
        }
        match find_cell(&all, c) {
            Some(j) => {
                let ghost old_all = all@;
                let k = all[j].1;
                proof {
                    lemma_occurrences_bound(before, c);
                }
                all.set(j, (c, k + 1));
                proof {
                    lemma_total_count_increment(old_all, j as int, (k + 1) as usize);
                    assert forall|d: HexCell| occurrences(after, d) >= 1 && occurrences(after, d) >= 0
                        implies exists|x: int| 0 <= x < all@.len() && #[trigger] all@[x].0 == d by {
                        if d == c {
                            assert(all@[j as int].0 == d);
                        } else {
                            let x = choose|x: int| 0 <= x < old_all.len() && #[trigger] old_all[x].0 == d;
                            assert(all@[x].0 == d);
                        }
                    }
                }
            },
            None => {
                let ghost old_all = all@;
                all.push((c, 1));
                proof {
                    lemma_total_count_push(old_all, (c, 1usize));
                    assert(occurrences(before, c) == 0) by {
                        if occurrences(before, c) >= 1 {
                            let x = choose|x: int| 0 <= x < old_all.len() && #[trigger] old_all[x].0 == c;
                        }
                    }
                    assert forall|d: HexCell| occurrences(after, d) >= 1 && occurrences(after, d) >= 0
                        implies exists|x: int| 0 <= x < all@.len() && #[trigger] all@[x].0 == d by {
                        if d == c {
                            assert(all@[old_all.len() as int].0 == d);
                        } else {
                            let x = choose|x: int| 0 <= x < old_all.len() && #[trigger] old_all[x].0 == d;
                            assert(all@[x].0 == d);
                        }
                    }
                }
            },
        }
        i = i + 1;
    }
    assert(cells@.take(n as int) =~= cells@);

    // Phase 2: keep the cells with at least `mincnt` points, tracking the
    // extreme counts among them.
    let m = all.len();
    let mut kept: Vec<(HexCell, usize)> = Vec::new();
    let mut max_count: usize = 0;
    let mut min_count: usize = 0;
    let mut j: usize = 0;
    while j < m
        invariant
            j <= m,
            m == all@.len(),
            is_cell_count(cells@, 0, all@),
            forall|x: int| 0 <= x < kept@.len() ==> {
                &&& #[trigger] kept@[x].1 == occurrences(cells@, kept@[x].0)
                &&& kept@[x].1 >= 1
                &&& kept@[x].1 >= mincnt
            },
            forall|x: int, y: int| 0 <= x < y < kept@.len() ==> kept@[x].0 != kept@[y].0,
            forall|x: int| 0 <= x < j && all@[x].1 >= mincnt ==> exists|y: int|
                0 <= y < kept@.len() && #[trigger] kept@[y].0 == #[trigger] all@[x].0,
            forall|y: int| 0 <= y < kept@.len() ==> exists|x: int|
                0 <= x < j && #[trigger] all@[x].0 == #[trigger] kept@[y].0,
            is_count_range(kept@, max_count, min_count),
            mincnt <= 1 ==> kept@ == all@.take(j as int),
        decreases m - j,
    {
        let (c, k) = all[j];
        if k >= mincnt {
            let ghost old_kept = kept@;
            proof {
                assert forall|y: int| 0 <= y < old_kept.len() implies old_kept[y].0 != c by {
                    let x = choose|x: int| 0 <= x < j && #[trigger] all@[x].0 == #[trigger] old_kept[y].0;
                    assert(all@[x].0 != all@[j as int].0);
                }
            }
            kept.push((c, k));
            if kept.len() == 1 {
                max_count = k;
                min_count = k;
                assert(kept@[0].1 == k);
            } else {
                if k > max_count {
                    max_count = k;
                }
                if k < min_count {
                    min_count = k;
                }
                proof {
                    assert(kept@[old_kept.len() as int].1 == k);
                    assert forall|x: int| 0 <= x < kept@.len() implies min_count <= #[trigger] kept@[x].1 <= max_count by {
                        if x < old_kept.len() {
                            assert(kept@[x] == old_kept[x]);
                        }
                    }
                    if max_count != k {
                        let x = choose|x: int| 0 <= x < old_kept.len() && #[trigger] old_kept[x].1 == max_count;
                        assert(kept@[x].1 == max_count);
                    }
                    if min_count != k {
                        let x = choose|x: int| 0 <= x < old_kept.len() && #[trigger] old_kept[x].1 == min_count;
                        assert(kept@[x].1 == min_count);
                    }
                }
            }
            proof {
                assert forall|x: int| 0 <= x < j + 1 && all@[x].1 >= mincnt implies exists|y: int|
                    0 <= y < kept@.len() && #[trigger] kept@[y].0 == #[trigger] all@[x].0 by {
                    if x == j {
                        assert(kept@[old_kept.len() as int].0 == all@[x].0);
                    } else {
                        let y = choose|y: int| 0 <= y < old_kept.len() && #[trigger] old_kept[y].0 == #[trigger] all@[x].0;
                        assert(kept@[y] == old_kept[y]);
                    }
                }
                assert forall|y: int| 0 <= y < kept@.len() implies exists|x: int|
                    0 <= x < j + 1 && #[trigger] all@[x].0 == #[trigger] kept@[y].0 by {
                    if y == old_kept.len() {
                        assert(all@[j as int].0 == kept@[y].0);
                    } else {
                        assert(kept@[y] == old_kept[y]);
                        let x = choose|x: int| 0 <= x < j && #[trigger] all@[x].0 == #[trigger] old_kept[y].0;
                    }
                }
                if mincnt <= 1 {
                    assert(kept@ =~= all@.take(j + 1));
                }
            }
        } else {
            proof {
                if mincnt <= 1 {
                    assert(all@[j as int].1 >= 1);
                }
                assert forall|y: int| 0 <= y < kept@.len() implies exists|x: int|
                    0 <= x < j + 1 && #[trigger] all@[x].0 == #[trigger] kept@[y].0 by {
                    let x = choose|x: int| 0 <= x < j && #[trigger] all@[x].0 == #[trigger] kept@[y].0;
                }
            }
        }
        j = j + 1;
    }
    proof {
        assert forall|c: HexCell| occurrences(cells@, c) >= 1 && occurrences(cells@, c) >= mincnt
            implies exists|y: int| 0 <= y < kept@.len() && #[trigger] kept@[y].0 == c by {
            let x = choose|x: int| 0 <= x < all@.len() && #[trigger] all@[x].0 == c;
            assert(all@[x].1 >= mincnt);
        }
        if mincnt <= 1 {
            assert(all@.take(m as int) =~= all@);
        }
    }
    HexCellCounts { counts: kept, max_count, min_count }
}

} // verus!
