//! The exact part of contouring: marching-squares case classification.
//!
//! For each grid cell, marching squares classifies the four corners as above
//! (`>=`) or below a contour level and looks up which cell edges the contour
//! line joins. Comparing values and interpolating the crossing points are
//! floating-point work done by the renderer; the classification and the
//! lookup table are exact and stand here.

use vstd::prelude::*;

verus! {

/// An edge of a grid cell.
#[derive(Debug, Clone, Copy, PartialEq, Eq, Structural)]
pub enum Edge {
    /// Between the bottom-left and bottom-right corners.
    Bottom,
    /// Between the bottom-right and top-right corners.
    Right,
    /// Between the top-left and top-right corners.
    Top,
    /// Between the bottom-left and top-left corners.
    Left,
}

/// The case number of a cell: bit 0 for the bottom-left corner, bit 1 for
/// bottom-right, bit 2 for top-right and bit 3 for top-left, each set when
/// that corner is at or above the level.
pub open spec fn case_number(bl: bool, br: bool, tr: bool, tl: bool) -> int {
    (if bl { 1int } else { 0 }) + (if br { 2int } else { 0 }) + (if tr { 4int } else { 0 })
        + (if tl { 8int } else { 0 })
}

/// The segments the contour draws in a cell of the given case, each as the
/// pair of edges it joins. Saddle cases (5 and 10) draw two segments.
pub open spec fn case_table(case: int) -> Seq<(Edge, Edge)> {
    if case == 1 || case == 14 {
        seq![(Edge::Bottom, Edge::Left)]
    } else if case == 2 || case == 13 {
        seq![(Edge::Bottom, Edge::Right)]
    } else if case == 3 || case == 12 {
        seq![(Edge::Left, Edge::Right)]
    } else if case == 4 || case == 11 {
        seq![(Edge::Right, Edge::Top)]
    } else if case == 5 || case == 10 {
        seq![(Edge::Bottom, Edge::Left), (Edge::Right, Edge::Top)]
    } else if case == 6 || case == 9 {
        seq![(Edge::Bottom, Edge::Top)]
    } else if case == 7 || case == 8 {
        seq![(Edge::Left, Edge::Top)]
    } else {
        seq![]
    }
}

/// Whether the level crosses edge `e`: its two corners are classified
/// differently.
pub open spec fn crosses(e: Edge, bl: bool, br: bool, tr: bool, tl: bool) -> bool {
    match e {
        Edge::Bottom => bl != br,
        Edge::Right => br != tr,
        Edge::Top => tl != tr,
        Edge::Left => bl != tl,
    }
}

/// How many segment ends of `segs` lie on edge `e`.
pub open spec fn edge_uses(segs: Seq<(Edge, Edge)>, e: Edge) -> int
    decreases segs.len(),
{
    if segs.len() == 0 {
        0
    } else {
        edge_uses(segs.drop_last(), e) + (if segs.last().0 == e { 1int } else { 0 }) + (if segs.last().1
            == e {
            1int
        } else {
            0
        })
    }
}

/// The table is right: in every cell, each edge that the level crosses is
/// the end of exactly one segment, and no other edge is used.
pub proof fn lemma_case_table_joins_crossings(bl: bool, br: bool, tr: bool, tl: bool, e: Edge)
    ensures
        edge_uses(case_table(case_number(bl, br, tr, tl)), e) == if crosses(e, bl, br, tr, tl) {
            1int
        } else {
            0
        },
{
    let segs = case_table(case_number(bl, br, tr, tl));
    reveal_with_fuel(edge_uses, 3);
    if segs.len() == 2 {
        assert(segs.drop_last() =~= seq![segs[0]]);
        assert(seq![segs[0]].drop_last() =~= Seq::<(Edge, Edge)>::empty());
    } else if segs.len() == 1 {
        assert(segs.drop_last() =~= Seq::<(Edge, Edge)>::empty());
    }
}

/// A cell and its complement (every corner flipped) draw the same segments.
pub proof fn lemma_complement_same_segments(bl: bool, br: bool, tr: bool, tl: bool)
    ensures
        case_table(case_number(bl, br, tr, tl)) == case_table(case_number(!bl, !br, !tr, !tl)),
{
}

/// Returns the case number of a cell from the classification of its corners.
pub fn cell_case(bl: bool, br: bool, tr: bool, tl: bool) -> (c: u8)
    ensures
        c == case_number(bl, br, tr, tl),
{
    let mut c: u8 = 0;
    if bl {
        c = c + 1;
    }
    if br {
        c = c + 2;
    }
    if tr {
        c = c + 4;
    }
    if tl {
        c = c + 8;
    }
    c
}

/// Returns the segments the contour draws in a cell of the given case.
pub fn case_segments(case: u8) -> (segs: Vec<(Edge, Edge)>)
    ensures
        segs@ == case_table(case as int),
{
    let mut segs: Vec<(Edge, Edge)> = Vec::new();
    if case == 1 || case == 14 {
        segs.push((Edge::Bottom, Edge::Left));
    } else if case == 2 || case == 13 {
        segs.push((Edge::Bottom, Edge::Right));
    } else if case == 3 || case == 12 {
        segs.push((Edge::Left, Edge::Right));
    } else if case == 4 || case == 11 {
        segs.push((Edge::Right, Edge::Top));
    } else if case == 5 || case == 10 {
        segs.push((Edge::Bottom, Edge::Left));
        segs.push((Edge::Right, Edge::Top));
    } else if case == 6 || case == 9 {
        segs.push((Edge::Bottom, Edge::Top));
    } else if case == 7 || case == 8 {
        segs.push((Edge::Left, Edge::Top));
    }
    assert(segs@ =~= case_table(case as int));
    segs
}

/// The segments of the contour in the cell whose bottom-left corner is
/// `(i, j)` (column `i` of row `j`), each tagged with the cell: none when a
/// corner has no classification (its value is not finite), else those of
/// the cell's case.
pub open spec fn cell_segments(above: Seq<Vec<Option<bool>>>, i: int, j: int) -> Seq<
    (usize, usize, Edge, Edge),
> {
    match (above[j]@[i], above[j]@[i + 1], above[j + 1]@[i + 1], above[j + 1]@[i]) {
        (Some(bl), Some(br), Some(tr), Some(tl)) => case_table(case_number(bl, br, tr, tl)).map_values(
            |e: (Edge, Edge)| (i as usize, j as usize, e.0, e.1),
        ),
        _ => seq![],
    }
}

/// The smaller of two integers.
pub open spec fn min_int(a: int, b: int) -> int {
    if a < b {
        a
    } else {
        b
    }
}

/// The number of cells of row `j`: those whose four corners exist, up to
/// the `nx` grid columns.
pub open spec fn row_cells(above: Seq<Vec<Option<bool>>>, nx: int, j: int) -> int {
    let c = min_int(nx - 1, min_int(above[j]@.len() - 1, above[j + 1]@.len() - 1));
    if c < 0 {
        0
    } else {
        c
    }
}

/// The number of rows of cells, up to the `ny` grid rows; none without at
/// least two rows and two columns.
pub open spec fn grid_rows(above: Seq<Vec<Option<bool>>>, nx: int, ny: int) -> int {
    if ny < 2 || nx < 2 || above.len() < 2 {
        0
    } else {
        min_int(ny - 1, above.len() - 1)
    }
}

/// The segments of the first `c` cells of row `j`, cell by cell.
pub open spec fn row_segments(above: Seq<Vec<Option<bool>>>, j: int, c: int) -> Seq<
    (usize, usize, Edge, Edge),
>
    decreases c,
{
    if c <= 0 {
        seq![]
    } else {
        row_segments(above, j, c - 1) + cell_segments(above, c - 1, j)
    }
}

/// The segments of the first `r` rows of cells, row by row.
pub open spec fn grid_segments(above: Seq<Vec<Option<bool>>>, nx: int, r: int) -> Seq<
    (usize, usize, Edge, Edge),
>
    decreases r,
{
    if r <= 0 {
        seq![]
    } else {
        grid_segments(above, nx, r - 1) + row_segments(above, r - 1, row_cells(above, nx, r - 1))
    }
}

/// How many segments a cell with the given corner classifications draws:
/// none when all four corners agree, two when the corners at or above the
/// level are exactly one diagonal pair (a saddle), one otherwise.
pub open spec fn segment_count(bl: bool, br: bool, tr: bool, tl: bool) -> int {
    if bl == br && br == tr && tr == tl {
        0
    } else if bl == tr && br == tl {
        2
    } else {
        1
    }
}

/// The number of segments a cell draws: `segment_count` of its corners when
/// all four are classified, none otherwise.
pub open spec fn cell_segment_count(above: Seq<Vec<Option<bool>>>, i: int, j: int) -> int {
    match (above[j]@[i], above[j]@[i + 1], above[j + 1]@[i + 1], above[j + 1]@[i]) {
        (Some(bl), Some(br), Some(tr), Some(tl)) => segment_count(bl, br, tr, tl),
        _ => 0,
    }
}

/// The total `cell_segment_count` of the first `c` cells of row `j`.
pub open spec fn row_segment_count(above: Seq<Vec<Option<bool>>>, j: int, c: int) -> int
    decreases c,
{
    if c <= 0 {
        0
    } else {
        row_segment_count(above, j, c - 1) + cell_segment_count(above, c - 1, j)
    }
}

/// The total `cell_segment_count` of the cells of the first `r` rows.
pub open spec fn grid_segment_count(above: Seq<Vec<Option<bool>>>, nx: int, r: int) -> int
    decreases r,
{
    if r <= 0 {
        0
    } else {
        grid_segment_count(above, nx, r - 1) + row_segment_count(above, r - 1, row_cells(above, nx, r - 1))
    }
}

/// A cell draws no segment when the level does not split its corners, two in
/// a saddle, and one otherwise.
pub proof fn lemma_case_segment_count(bl: bool, br: bool, tr: bool, tl: bool)
    ensures
        case_table(case_number(bl, br, tr, tl)).len() == segment_count(bl, br, tr, tl),
{
}

/// Every cell contributes `cell_segment_count` segments to the contour of
/// its grid, so the contour has `grid_segment_count` segments in all.
pub proof fn lemma_grid_segment_count(above: Seq<Vec<Option<bool>>>, nx: int, r: int)
    ensures
        grid_segments(above, nx, r).len() == grid_segment_count(above, nx, r),
    decreases r,
{
    if r > 0 {
        lemma_grid_segment_count(above, nx, r - 1);
        lemma_row_segment_count(above, r - 1, row_cells(above, nx, r - 1));
    }
}

/// The segments of the first `c` cells of a row number `row_segment_count`.
proof fn lemma_row_segment_count(above: Seq<Vec<Option<bool>>>, j: int, c: int)
    ensures
        row_segments(above, j, c).len() == row_segment_count(above, j, c),
    decreases c,
{
    if c > 0 {
        lemma_row_segment_count(above, j, c - 1);
        let i = c - 1;
        match (above[j]@[i], above[j]@[i + 1], above[j + 1]@[i + 1], above[j + 1]@[i]) {
            (Some(bl), Some(br), Some(tr), Some(tl)) => {
                lemma_case_segment_count(bl, br, tr, tl);
            },
            _ => {},
        }
    }
}

/// Walks the cells of a grid for marching squares: `above[j][i]` classifies
/// the value at column `i` of row `j` as at or above the level (`Some(true)`),
/// below it (`Some(false)`), or not finite (`None`), for an `nx` by `ny`
/// grid whose rows may be shorter. Returns the contour segments of every
/// cell, row by row and cell by cell, each as its cell and the two edges it
/// joins; cells with a corner that is not finite draw nothing.
pub fn contour_cells(above: &Vec<Vec<Option<bool>>>, nx: usize, ny: usize) -> (segs: Vec<
    (usize, usize, Edge, Edge),
>)
    ensures
        segs@ == grid_segments(above@, nx as int, grid_rows(above@, nx as int, ny as int)),
        segs@.len() == grid_segment_count(above@, nx as int, grid_rows(above@, nx as int, ny as int)),
{
    proof {
        lemma_grid_segment_count(above@, nx as int, grid_rows(above@, nx as int, ny as int));
    }
    let mut segs: Vec<(usize, usize, Edge, Edge)> = Vec::new();
    if ny < 2 || nx < 2 || above.len() < 2 {
        return segs;
    }
    let rows = if ny - 1 < above.len() - 1 {
        ny - 1
    } else {
        above.len() - 1
    };
    let mut j: usize = 0;
    while j < rows
        invariant
            2 <= nx,
            2 <= ny,
            2 <= above@.len(),
            rows == grid_rows(above@, nx as int, ny as int),
            rows < above@.len(),
            j <= rows,
            segs@ == grid_segments(above@, nx as int, j as int),
        decreases rows - j,
    {
        let row_bot = &above[j];
        let row_top = &above[j + 1];
        let mut cols = nx - 1;
        if row_bot.len() < cols + 1 {
            cols = if row_bot.len() == 0 { 0 } else { row_bot.len() - 1 };
        }
        if row_top.len() < cols + 1 {
            cols = if row_top.len() == 0 { 0 } else { row_top.len() - 1 };
        }
        assert(cols == row_cells(above@, nx as int, j as int));
        let ghost before = segs@;
        let mut i: usize = 0;
        while i < cols
            invariant
                j < rows < above@.len(),
                *row_bot == above@[j as int],
                *row_top == above@[j + 1],
                cols == row_cells(above@, nx as int, j as int),
                cols == 0 || cols < row_bot@.len(),
                cols == 0 || cols < row_top@.len(),
                i <= cols,
                segs@ == before + row_segments(above@, j as int, i as int),
            decreases cols - i,
        {
            let ghost prefix = segs@;
            match (row_bot[i], row_bot[i + 1], row_top[i + 1], row_top[i]) {
                (Some(bl), Some(br), Some(tr), Some(tl)) => {
                    let cell = case_segments(cell_case(bl, br, tr, tl));
                    let mut k: usize = 0;
                    while k < cell.len()
                        invariant
                            k <= cell@.len(),
                            segs@ == prefix + cell@.take(k as int).map_values(
                                |e: (Edge, Edge)| (i, j, e.0, e.1),
                            ),
                        decreases cell@.len() - k,
                    {
                        let (a, b) = cell[k];
                        segs.push((i, j, a, b));
                        assert(cell@.take(k as int + 1).map_values(|e: (Edge, Edge)| (i, j, e.0, e.1))
                            =~= cell@.take(k as int).map_values(|e: (Edge, Edge)| (i, j, e.0, e.1)).push(
                            (i, j, a, b),
                        ));
                        k = k + 1;
                    }
                    assert(cell@.take(cell@.len() as int) =~= cell@);
                },
                _ => {},
            }
            assert(segs@ == prefix + cell_segments(above@, i as int, j as int));
            assert(before + row_segments(above@, j as int, i + 1) =~= before + row_segments(
                above@,
                j as int,
                i as int,
            ) + cell_segments(above@, i as int, j as int));
            i = i + 1;
        }
        assert(grid_segments(above@, nx as int, j + 1) =~= before + row_segments(
            above@,
            j as int,
            cols as int,
        ));
        j = j + 1;
    }
    segs
}

} // verus!
