use plotkit_core::series::{categories_from_polars, Categories, IntoCategories};
use polars::prelude::{NamedFrom, Series};

#[test]
fn categories_from_str_slice() {
    let cats: &[&str] = &["a", "b", "c"];
    let c = cats.into_categories();
    assert_eq!(c.labels, vec!["a", "b", "c"]);
}

#[test]
fn categories_from_vec_string() {
    let c = vec!["x".to_string(), "y".to_string()].into_categories();
    assert_eq!(c.labels, vec!["x", "y"]);
}

#[test]
fn categories_from_string_slice() {
    let v = vec!["p".to_string(), "q".to_string()];
    let c = v.as_slice().into_categories();
    assert_eq!(c.labels, vec!["p", "q"]);
}

#[test]
fn categories_from_vec_str_ref() {
    let c = vec!["foo", "bar"].into_categories();
    assert_eq!(c.labels, vec!["foo", "bar"]);
    assert_eq!(c.len(), 2);
    assert!(!c.is_empty());
}

#[test]
fn categories_empty() {
    let c = Categories::new(Vec::new());
    assert_eq!(c.len(), 0);
    assert!(c.is_empty());
}

#[test]
fn categories_from_polars_string_column_nulls_become_null() {
    let s = Series::new("fruit".into(), &[Some("apple"), None, Some("pear")]);
    let c = categories_from_polars(&s).expect("string column");
    assert_eq!(c.labels, vec!["apple", "null", "pear"]);
}

#[test]
fn categories_from_polars_rejects_numeric_column() {
    let s = Series::new("n".into(), &[1i32, 2, 3]);
    assert!(categories_from_polars(&s).is_none());
}
