//! Categorical labels for bar charts, pie charts, waterfalls and other
//! discrete-axis visualizations.
//!
//! Numeric series are sequences of floating-point values and are converted
//! beside the renderers; categories are plain strings and are handled here,
//! including those read from a Polars string column.

use vstd::prelude::*;

verus! {

/// Categorical labels for discrete-axis visualizations.
///
/// Use [`IntoCategories`] to convert common string collections into this
/// type automatically.
#[derive(Debug, Clone)]
pub struct Categories {
    /// The category labels.
    pub labels: Vec<String>,
}

/// The characters of each label of a list of labels.
pub open spec fn label_texts(labels: Seq<String>) -> Seq<Seq<char>> {
    labels.map_values(|s: String| s@)
}

impl Categories {
    /// The characters of each category label, in order.
    pub open spec fn texts(&self) -> Seq<Seq<char>> {
        label_texts(self.labels@)
    }

    /// Creates a new `Categories` from a vector of label strings.
    pub fn new(labels: Vec<String>) -> (c: Self)
        ensures
            c.labels == labels,
    {
        Categories { labels }
    }

    /// Returns the number of categories.
    pub fn len(&self) -> (n: usize)
        ensures
            n == self.labels@.len(),
    {
        self.labels.len()
    }

    /// Returns `true` if there are no categories.
    pub fn is_empty(&self) -> (b: bool)
        ensures
            b == (self.labels@.len() == 0),
    {
        self.labels.len() == 0
    }
}

/// Trait for types that can be converted into [`Categories`].
pub trait IntoCategories {
    /// The characters of each label this value converts into, in order.
    spec fn category_texts(&self) -> Seq<Seq<char>>;

    /// Converts this value into [`Categories`].
    fn into_categories(self) -> (c: Categories)
        ensures
            c.texts() == self.category_texts(),
    ;
}

/// Appending a label appends its characters.
proof fn lemma_label_texts_push(a: Seq<String>, x: String)
    ensures
        label_texts(a.push(x)) == label_texts(a).push(x@),
{
    assert(label_texts(a.push(x)) =~= label_texts(a).push(x@));
}

/// Mapping a one-longer prefix appends the image of the next element.
proof fn lemma_map_take_push<A, B>(a: Seq<A>, i: int, f: spec_fn(A) -> B)
    requires
        0 <= i < a.len(),
    ensures
        a.take(i + 1).map_values(f) == a.take(i).map_values(f).push(f(a[i])),
{
    assert(a.take(i + 1).map_values(f) =~= a.take(i).map_values(f).push(f(a[i])));
}

/// Owned copies of string slices, in order.
fn owned_labels(strs: &[&str]) -> (v: Vec<String>)
    ensures
        label_texts(v@) == strs@.map_values(|s: &str| s@),
{
    let mut v: Vec<String> = Vec::new();
    let n = strs.len();
    let mut i: usize = 0;
    while i < n
        invariant
            i <= n,
            n == strs@.len(),
            label_texts(v@) == strs@.take(i as int).map_values(|s: &str| s@),
        decreases n - i,
    {
        let s: String = strs[i].to_owned();
        let ghost old_v = v@;
        v.push(s);
        proof {
            lemma_label_texts_push(old_v, s);
            lemma_map_take_push(strs@, i as int, |s: &str| s@);
        }
        i = i + 1;
    }
    assert(strs@.take(n as int) =~= strs@);
    v
}

/// Clones of strings, in order.
fn cloned_labels(strs: &[String]) -> (v: Vec<String>)
    ensures
        label_texts(v@) == label_texts(strs@),
{
    let mut v: Vec<String> = Vec::new();
    let n = strs.len();
    let mut i: usize = 0;
    while i < n
        invariant
            i <= n,
            n == strs@.len(),
            label_texts(v@) == label_texts(strs@.take(i as int)),
        decreases n - i,
    {
        let s: String = strs[i].clone();
        let ghost old_v = v@;
        v.push(s);
        proof {
            lemma_label_texts_push(old_v, s);
            lemma_map_take_push(strs@, i as int, |s: String| s@);
            assert(strs@.take(i + 1).map_values(|s: String| s@) == label_texts(strs@.take(i + 1)));
        }
        i = i + 1;
    }
    assert(strs@.take(n as int) =~= strs@);
    v
}

impl<'a, 'b> IntoCategories for &'a [&'b str] {
    open spec fn category_texts(&self) -> Seq<Seq<char>> {
        (**self)@.map_values(|s: &str| s@)
    }

    /// Converts a slice of string slices into [`Categories`].
    fn into_categories(self) -> (c: Categories) {
        Categories::new(owned_labels(self))
    }
}

impl IntoCategories for Vec<String> {
    open spec fn category_texts(&self) -> Seq<Seq<char>> {
        label_texts(self@)
    }

    /// Zero-copy conversion from an owned `Vec<String>`.
    fn into_categories(self) -> (c: Categories) {
        Categories::new(self)
    }
}

impl<'a> IntoCategories for &'a [String] {
    open spec fn category_texts(&self) -> Seq<Seq<char>> {
        label_texts((**self)@)
    }

    /// Clones the string slice into [`Categories`].
    fn into_categories(self) -> (c: Categories) {
        Categories::new(cloned_labels(self))
    }
}

impl<'a> IntoCategories for Vec<&'a str> {
    open spec fn category_texts(&self) -> Seq<Seq<char>> {
        self@.map_values(|s: &str| s@)
    }

    /// Converts a vector of string slices into [`Categories`].
    fn into_categories(self) -> (c: Categories) {
        Categories::new(owned_labels(self.as_slice()))
    }
}

// ---------------------------------------------------------------------------
// Polars string columns
// ---------------------------------------------------------------------------

/// A Polars series (a typed column of a data frame).
#[verifier::external_type_specification]
#[verifier::external_body]
pub struct ExPolarsSeries(polars::prelude::Series);

/// The error type of Polars operations. Verus needs it declared because the
/// operator impls of `Series` return it.
#[verifier::external_type_specification]
#[verifier::external_body]
pub struct ExPolarsError(polars::prelude::PolarsError);

/// Whether a Polars series has the string data type.
pub uninterp spec fn polars_is_string(s: polars::prelude::Series) -> bool;

/// The cells of a Polars string series, in order; a null cell is `None`.
pub uninterp spec fn polars_string_cells(s: polars::prelude::Series) -> Seq<Option<Seq<char>>>;

/// The characters of each cell of a list of optional strings.
pub open spec fn optional_texts(cells: Seq<Option<String>>) -> Seq<Option<Seq<char>>> {
    cells.map_values(|c: Option<String>| match c {
        Some(s) => Some(s@),
        None => None,
    })
}

/// Reads the cells of a Polars string series (`Series::str` and its
/// iterator). Returns `None` exactly when the series is not of string type;
/// otherwise one entry per row, in row order, `None` for a null cell.
#[verifier::external_body]
fn polars_string_values(series: &polars::prelude::Series) -> (v: Option<Vec<Option<String>>>)
    ensures
        v is Some <==> polars_is_string(*series),
        v matches Some(cells) ==> optional_texts(cells@) == polars_string_cells(*series),
{
    match series.str() {
        Ok(ca) => Some(ca.iter().map(|o| o.map(|s| s.to_owned())).collect()),
        Err(_) => None,
    }
}

/// The category label of a string cell: its text, or `"null"` for a null cell.
pub open spec fn cell_label(c: Option<Seq<char>>) -> Seq<char> {
    match c {
        Some(s) => s,
        None => "null"@,
    }
}

/// Converts a Polars string series into [`Categories`], one label per row;
/// null cells become the string `"null"`. Returns `None` when the series is
/// not of string type.
pub fn categories_from_polars(series: &polars::prelude::Series) -> (c: Option<Categories>)
    ensures
        c is Some <==> polars_is_string(*series),
        c matches Some(cats) ==> cats.texts() == polars_string_cells(*series).map_values(
            |x: Option<Seq<char>>| cell_label(x),
        ),
{
    match polars_string_values(series) {
        None => None,
        Some(cells) => {
            let ghost src = optional_texts(cells@);
            let n = cells.len();
            let mut labels: Vec<String> = Vec::new();
            let mut i: usize = 0;
            while i < n
                invariant
                    i <= n,
                    n == cells@.len(),
                    src == optional_texts(cells@),
                    label_texts(labels@) == src.take(i as int).map_values(
                        |x: Option<Seq<char>>| cell_label(x),
                    ),
                decreases n - i,
            {
                let label: String = match &cells[i] {
                    Some(s) => s.clone(),
                    None => "null".to_owned(),
                };
                let ghost old_labels = labels@;
                labels.push(label);
                proof {
                    lemma_label_texts_push(old_labels, label);
                    lemma_map_take_push(src, i as int, |x: Option<Seq<char>>| cell_label(x));
                    assert(src[i as int] == (match cells@[i as int] {
                        Some(s) => Some(s@),
                        None => None,
                    }));
                    reveal_strlit("null");
                }
                i = i + 1;
            }
            assert(src.take(n as int) =~= src);
            Some(Categories::new(labels))
        },
    }
}

} // verus!
