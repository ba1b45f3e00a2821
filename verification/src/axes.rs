//! The exact decisions an axes makes when a chart is added: validating the
//! lengths of the input series and picking the next color of the cycle.
//!
//! The axes itself holds floating-point limits, ticks and data and lives
//! beside the renderer; it calls these functions for every chart it adds.

use vstd::prelude::*;
use crate::error::{decimal, decimal_string, PlotError, Result};
use crate::primitives::{Color, tableau_10};

verus! {

/// Specifies which side a twin axes occupies relative to its parent.
#[derive(Debug, Clone, Copy, PartialEq, Eq, Structural)]
pub enum TwinSide {
    /// The twin shares the x-axis and draws an independent y-axis on the right.
    Right,
    /// The twin shares the y-axis and draws an independent x-axis on the top.
    Top,
}

/// Returns the color that the `color_index`-th chart of an axes receives:
/// the Tableau-10 palette, cycled.
pub fn cycle_color(color_index: usize) -> (c: Color)
    ensures
        c == tableau_10()[(color_index % 10) as int],
{
    let palette = Color::TABLEAU_10();
    palette[color_index % 10]
}

/// Successive charts receive distinct colors: any ten consecutive positions
/// of the color cycle get ten different colors, and the cycle repeats with
/// period ten.
pub proof fn lemma_cycle_colors_distinct(i: nat, j: nat)
    requires
        i < j,
    ensures
        j - i < 10 ==> tableau_10()[(i % 10) as int] != tableau_10()[(j % 10) as int],
        j - i == 10 ==> tableau_10()[(i % 10) as int] == tableau_10()[(j % 10) as int],
{
    let p = tableau_10();
    assert(p.len() == 10);
    assert forall|a: int, b: int| 0 <= a < b < 10 implies p[a] != p[b] by {
        assert(p[a].r != p[b].r || p[a].g != p[b].g || p[a].b != p[b].b);
    }
    if j - i < 10 {
        assert(i % 10 != j % 10) by {
            vstd::arithmetic::div_mod::lemma_fundamental_div_mod(i as int, 10);
            vstd::arithmetic::div_mod::lemma_fundamental_div_mod(j as int, 10);
            if i % 10 == j % 10 {
                assert(i / 10 < j / 10);
            }
        }
        if i % 10 > j % 10 {
            assert(p[(j % 10) as int] != p[(i % 10) as int]);
        }
    }
    if j - i == 10 {
        vstd::arithmetic::div_mod::lemma_mod_add_multiples_vanish(i as int, 10);
    }
}

/// Validates two paired series before a chart is added: their lengths must
/// agree (checked first) and must not be zero.
pub fn check_series_pair(expected: usize, got: usize) -> (r: Result<()>)
    ensures
        expected != got ==> (r matches Err(PlotError::SeriesLengthMismatch { expected: e, got: g })
            && e == expected && g == got),
        expected == got && expected == 0 ==> r matches Err(PlotError::EmptyData),
        expected == got && expected > 0 ==> r is Ok,
{
    if expected != got {
        return Err(PlotError::SeriesLengthMismatch { expected, got });
    }
    if expected == 0 {
        return Err(PlotError::EmptyData);
    }
    Ok(())
}

/// Validates the two series of a hexbin chart: neither may be empty (checked
/// first), and their lengths must agree.
pub fn check_hexbin_series(xlen: usize, ylen: usize) -> (r: Result<()>)
    ensures
        xlen == 0 || ylen == 0 ==> r matches Err(PlotError::EmptyData),
        xlen > 0 && ylen > 0 && xlen != ylen ==> (r matches Err(
            PlotError::SeriesLengthMismatch { expected: e, got: g },
        ) && e == xlen && g == ylen),
        xlen > 0 && xlen == ylen ==> r is Ok,
{
    if xlen == 0 || ylen == 0 {
        return Err(PlotError::EmptyData);
    }
    if xlen != ylen {
        return Err(PlotError::SeriesLengthMismatch { expected: xlen, got: ylen });
    }
    Ok(())
}

/// Validates the three series of a fill-between chart: both y-series must
/// have the length of the x-series (`y1` checked first), and it must not be
/// zero.
pub fn check_series_triple(xlen: usize, y1len: usize, y2len: usize) -> (r: Result<()>)
    ensures
        xlen != y1len ==> (r matches Err(PlotError::SeriesLengthMismatch { expected: e, got: g })
            && e == xlen && g == y1len),
        xlen == y1len && xlen != y2len ==> (r matches Err(
            PlotError::SeriesLengthMismatch { expected: e, got: g },
        ) && e == xlen && g == y2len),
        xlen == y1len && xlen == y2len && xlen == 0 ==> r matches Err(PlotError::EmptyData),
        xlen == y1len && xlen == y2len && xlen > 0 ==> r is Ok,
{
    if xlen != y1len {
        return Err(PlotError::SeriesLengthMismatch { expected: xlen, got: y1len });
    }
    check_series_pair(xlen, y2len)
}

/// The category labels of a box plot of `n` datasets: `"1"`, `"2"`, ...,
/// the 1-based position of each dataset.
pub fn boxplot_labels(n: usize) -> (labels: Vec<String>)
    ensures
        labels@.len() == n,
        forall|i: int| 0 <= i < n ==> #[trigger] labels@[i]@ == decimal((i + 1) as nat),
{
    let mut labels: Vec<String> = Vec::new();
    let mut i: usize = 0;
    while i < n
        invariant
            i <= n,
            labels@.len() == i,
            forall|k: int| 0 <= k < i ==> #[trigger] labels@[k]@ == decimal((k + 1) as nat),
        decreases n - i,
    {
        labels.push(decimal_string(i + 1));
        i = i + 1;
    }
    labels
}

} // verus!
