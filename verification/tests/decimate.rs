use plotkit_core::decimate::{finite_indices, lttb_indices, minmax_indices};
use std::f64::consts::PI;

fn first_of_bucket(start: usize, _end: usize, _ns: usize, _ne: usize, _prev: usize) -> usize {
    start
}

fn last_of_bucket(_start: usize, end: usize, _ns: usize, _ne: usize, _prev: usize) -> usize {
    end - 1
}

#[test]
fn finite_indices_skips_non_finite_points() {
    assert_eq!(finite_indices(&vec![true, false, true, true, false]), vec![0, 2, 3]);
    assert!(finite_indices(&vec![false, false]).is_empty());
}

#[test]
fn lttb_keeps_first_last_and_one_point_per_bucket() {
    let finite = vec![true; 10];
    // Two buckets over the eight interior points: positions 1..5 and 5..9.
    assert_eq!(lttb_indices(&finite, 4, first_of_bucket), vec![0, 1, 5, 9]);
    assert_eq!(lttb_indices(&finite, 4, last_of_bucket), vec![0, 4, 8, 9]);
}

#[test]
fn lttb_threshold_two_keeps_first_and_last() {
    let finite = vec![true; 7];
    assert_eq!(lttb_indices(&finite, 2, first_of_bucket), vec![0, 6]);
}

#[test]
fn lttb_passes_bucket_ranges_and_previous_choice() {
    let finite = vec![true; 10];
    let seen = std::cell::RefCell::new(Vec::new());
    let pick = |s: usize, e: usize, ns: usize, ne: usize, prev: usize| -> usize {
        seen.borrow_mut().push((s, e, ns, ne, prev));
        e - 1
    };
    let kept = lttb_indices(&finite, 4, pick);
    assert_eq!(kept, vec![0, 4, 8, 9]);
    assert_eq!(*seen.borrow(), vec![(1, 5, 5, 9, 0), (5, 9, 9, 10, 4)]);
}

#[test]
fn lttb_edge_cases_without_decimation() {
    let finite = vec![true, false, true];
    assert!(lttb_indices(&finite, 0, first_of_bucket).is_empty());
    assert!(lttb_indices(&Vec::new(), 3, first_of_bucket).is_empty());
    assert_eq!(lttb_indices(&finite, 1, first_of_bucket), vec![0]);
    // At or above the number of points, every index is kept, finite or not.
    assert_eq!(lttb_indices(&finite, 3, first_of_bucket), vec![0, 1, 2]);
    assert_eq!(lttb_indices(&finite, 10, first_of_bucket), vec![0, 1, 2]);
}

#[test]
fn lttb_works_on_finite_points_only() {
    let finite = vec![true, false, true, true, false, true, true, true];
    // Finite points 0, 2, 3, 5, 6, 7; one bucket over positions 1..5.
    assert_eq!(lttb_indices(&finite, 3, first_of_bucket), vec![0, 2, 7]);
    assert_eq!(lttb_indices(&finite, 3, last_of_bucket), vec![0, 6, 7]);
    // No more finite points than the threshold: all finite points.
    assert_eq!(lttb_indices(&vec![true, false, true, false, true], 3, first_of_bucket), vec![0, 2, 4]);
    // No finite point at all.
    assert!(lttb_indices(&vec![false; 5], 3, first_of_bucket).is_empty());
}

#[test]
fn minmax_keeps_both_extremes_in_order() {
    let finite = vec![true; 10];
    // Threshold 6: two buckets, positions 1..5 and 5..9. The maximum comes
    // first in each bucket here, yet the points are kept in index order.
    let kept = minmax_indices(&finite, 6, |s: usize, e: usize| -> (usize, usize) { (e - 1, s) });
    assert_eq!(kept, vec![0, 1, 4, 5, 8, 9]);
}

#[test]
fn minmax_keeps_one_point_when_extremes_coincide() {
    let finite = vec![true; 10];
    let kept = minmax_indices(&finite, 6, |s: usize, _e: usize| -> (usize, usize) { (s, s) });
    assert_eq!(kept, vec![0, 1, 5, 9]);
}

#[test]
fn minmax_small_threshold_uses_one_bucket() {
    let finite = vec![true; 10];
    let kept = minmax_indices(&finite, 2, |_s: usize, _e: usize| -> (usize, usize) { (3, 7) });
    assert_eq!(kept, vec![0, 3, 7, 9]);
}

#[test]
fn minmax_edge_cases() {
    let extremes = |s: usize, _e: usize| -> (usize, usize) { (s, s) };
    assert!(minmax_indices(&vec![true; 4], 0, extremes).is_empty());
    assert_eq!(minmax_indices(&vec![true; 4], 1, extremes), vec![0]);
    assert_eq!(minmax_indices(&vec![true; 4], 4, extremes), vec![0, 1, 2, 3]);
    assert!(minmax_indices(&vec![false; 6], 3, extremes).is_empty());
    assert_eq!(minmax_indices(&vec![false, true, true, false, true, false], 3, extremes), vec![1, 2, 4]);
}

// Drivers that make the floating-point choices of LTTB and min-max the way
// the renderer does, around the library's index selection.

fn finite_mask(x: &[f64], y: &[f64]) -> Vec<bool> {
    x.iter().zip(y).map(|(a, b)| a.is_finite() && b.is_finite()).collect()
}

fn triangle_area(x_a: f64, y_a: f64, x_b: f64, y_b: f64, x_c: f64, y_c: f64) -> f64 {
    (x_a * (y_b - y_c) + x_b * (y_c - y_a) + x_c * (y_a - y_b)).abs()
}

fn lttb(x: &[f64], y: &[f64], threshold: usize) -> Vec<usize> {
    assert_eq!(x.len(), y.len());
    let finite = finite_mask(x, y);
    let valid = finite_indices(&finite);
    let pick = |start: usize, end: usize, ns: usize, ne: usize, prev: usize| -> usize {
        let (ax, ay) = if ne > ns {
            let c = (ne - ns) as f64;
            let sx: f64 = valid[ns..ne].iter().map(|&i| x[i]).sum();
            let sy: f64 = valid[ns..ne].iter().map(|&i| y[i]).sum();
            (sx / c, sy / c)
        } else {
            let last = valid[valid.len() - 1];
            (x[last], y[last])
        };
        let (px, py) = (x[valid[prev]], y[valid[prev]]);
        let mut best_area = -1.0_f64;
        let mut best = start;
        for pos in start..end {
            let area = triangle_area(px, py, x[valid[pos]], y[valid[pos]], ax, ay);
            if area > best_area {
                best_area = area;
                best = pos;
            }
        }
        best
    };
    lttb_indices(&finite, threshold, pick)
}

fn minmax(x: &[f64], y: &[f64], threshold: usize) -> Vec<usize> {
    assert_eq!(x.len(), y.len());
    let finite = finite_mask(x, y);
    let valid = finite_indices(&finite);
    let extremes = |start: usize, end: usize| -> (usize, usize) {
        let (mut lo, mut hi) = (start, start);
        for pos in start..end {
            if y[valid[pos]] < y[valid[lo]] {
                lo = pos;
            }
            if y[valid[pos]] > y[valid[hi]] {
                hi = pos;
            }
        }
        (lo, hi)
    };
    minmax_indices(&finite, threshold, extremes)
}

#[test]
fn lttb_identity_when_threshold_ge_len() {
    let x = vec![0.0, 1.0, 2.0, 3.0, 4.0];
    let y = vec![0.0, 1.0, 4.0, 9.0, 16.0];
    let indices = lttb(&x, &y, 5);
    assert_eq!(indices, vec![0, 1, 2, 3, 4]);

    let indices = lttb(&x, &y, 100);
    assert_eq!(indices, vec![0, 1, 2, 3, 4]);
}

#[test]
fn lttb_first_and_last_always_preserved() {
    let x: Vec<f64> = (0..100).map(|i| i as f64).collect();
    let y: Vec<f64> = x.iter().map(|v| v * v).collect();
    let indices = lttb(&x, &y, 10);
    assert_eq!(*indices.first().unwrap(), 0);
    assert_eq!(*indices.last().unwrap(), 99);
    assert_eq!(indices.len(), 10);
}

#[test]
fn lttb_threshold_2_returns_first_and_last() {
    let x = vec![0.0, 1.0, 2.0, 3.0, 4.0];
    let y = vec![10.0, 20.0, 30.0, 40.0, 50.0];
    let indices = lttb(&x, &y, 2);
    assert_eq!(indices, vec![0, 4]);
}

#[test]
fn lttb_threshold_3_returns_first_middle_last() {
    let x = vec![0.0, 1.0, 2.0, 3.0, 4.0];
    let y = vec![0.0, 5.0, 0.0, 5.0, 0.0];
    let indices = lttb(&x, &y, 3);
    assert_eq!(indices.len(), 3);
    assert_eq!(indices[0], 0);
    assert_eq!(*indices.last().unwrap(), 4);
}

#[test]
fn lttb_linear_data_any_subset_looks_identical() {
    // For perfectly linear data y = 2x + 1, all triangles have zero area.
    // LTTB should still return `threshold` points, all lying on the line.
    let n = 50;
    let x: Vec<f64> = (0..n).map(|i| i as f64).collect();
    let y: Vec<f64> = x.iter().map(|v| 2.0 * v + 1.0).collect();
    let indices = lttb(&x, &y, 10);
    assert_eq!(indices.len(), 10);

    // All selected points should satisfy y = 2x + 1.
    for &idx in &indices {
        let expected = 2.0 * x[idx] + 1.0;
        assert!(
            (y[idx] - expected).abs() < 1e-12,
            "point at index {} deviates from y = 2x + 1",
            idx
        );
    }
}

#[test]
fn lttb_sinusoidal_peaks_preserved() {
    // Generate a sine wave and verify that LTTB keeps the peaks.
    let n = 1000;
    let x: Vec<f64> = (0..n).map(|i| i as f64 * 2.0 * PI / 100.0).collect();
    let y: Vec<f64> = x.iter().map(|v| v.sin()).collect();

    let indices = lttb(&x, &y, 50);

    // The global max (~1.0) and min (~-1.0) should be close to the selected set.
    let selected_y: Vec<f64> = indices.iter().map(|&i| y[i]).collect();
    let max_selected = selected_y.iter().cloned().fold(f64::NEG_INFINITY, f64::max);
    let min_selected = selected_y.iter().cloned().fold(f64::INFINITY, f64::min);

    assert!(max_selected > 0.95, "peak not preserved: max = {}", max_selected);
    assert!(min_selected < -0.95, "trough not preserved: min = {}", min_selected);
}

#[test]
fn lttb_single_point() {
    let x = vec![42.0];
    let y = vec![7.0];
    let indices = lttb(&x, &y, 5);
    assert_eq!(indices, vec![0]);
}

#[test]
fn lttb_two_points() {
    let x = vec![1.0, 2.0];
    let y = vec![3.0, 4.0];
    let indices = lttb(&x, &y, 5);
    assert_eq!(indices, vec![0, 1]);
}

#[test]
fn lttb_nan_handling() {
    let x = vec![0.0, 1.0, f64::NAN, 3.0, 4.0, 5.0];
    let y = vec![0.0, 1.0, 2.0, 3.0, 4.0, 5.0];
    let indices = lttb(&x, &y, 4);
    // NaN at index 2 should be skipped entirely.
    assert!(!indices.contains(&2), "NaN index should not be selected");
    // First valid (0) and last valid (5) should be present.
    assert_eq!(*indices.first().unwrap(), 0);
    assert_eq!(*indices.last().unwrap(), 5);
}

#[test]
fn lttb_empty_input() {
    let x: Vec<f64> = vec![];
    let y: Vec<f64> = vec![];
    let indices = lttb(&x, &y, 10);
    assert!(indices.is_empty());
}

#[test]
fn lttb_threshold_zero() {
    let x = vec![0.0, 1.0, 2.0];
    let y = vec![0.0, 1.0, 2.0];
    let indices = lttb(&x, &y, 0);
    assert!(indices.is_empty());
}

#[test]
fn lttb_threshold_one() {
    let x = vec![0.0, 1.0, 2.0];
    let y = vec![0.0, 1.0, 2.0];
    let indices = lttb(&x, &y, 1);
    assert_eq!(indices, vec![0]);
}


#[test]
fn minmax_preserves_extremes() {
    // Data with a clear spike and dip.
    let x: Vec<f64> = (0..20).map(|i| i as f64).collect();
    let mut y: Vec<f64> = vec![0.0; 20];
    y[5] = 100.0;  // spike
    y[15] = -100.0; // dip

    let indices = minmax(&x, &y, 10);
    let selected_y: Vec<f64> = indices.iter().map(|&i| y[i]).collect();

    assert!(selected_y.contains(&100.0), "spike not preserved");
    assert!(selected_y.contains(&-100.0), "dip not preserved");
}

#[test]
fn minmax_identity_when_threshold_ge_len() {
    let x = vec![0.0, 1.0, 2.0, 3.0];
    let y = vec![1.0, 2.0, 3.0, 4.0];
    let indices = minmax(&x, &y, 10);
    assert_eq!(indices, vec![0, 1, 2, 3]);
}

#[test]
fn minmax_first_and_last_preserved() {
    let x: Vec<f64> = (0..50).map(|i| i as f64).collect();
    let y: Vec<f64> = x.iter().map(|v| v.sin()).collect();
    let indices = minmax(&x, &y, 10);
    assert_eq!(*indices.first().unwrap(), 0);
    assert_eq!(*indices.last().unwrap(), 49);
}

#[test]
fn minmax_empty_input() {
    let indices = minmax(&[], &[], 5);
    assert!(indices.is_empty());
}

#[test]
fn minmax_threshold_zero() {
    let indices = minmax(&[1.0, 2.0], &[3.0, 4.0], 0);
    assert!(indices.is_empty());
}

#[test]
fn minmax_nan_handling() {
    let x = vec![0.0, 1.0, f64::NAN, 3.0, 4.0];
    let y = vec![0.0, 10.0, 5.0, -10.0, 0.0];
    let indices = minmax(&x, &y, 4);
    assert!(!indices.contains(&2), "NaN index should not be selected");
}


#[test]
fn lttb_large_dataset_smoke() {
    let n = 100_000;
    let x: Vec<f64> = (0..n).map(|i| i as f64).collect();
    let y: Vec<f64> = x.iter().map(|v| (v * 0.01).sin() + (v * 0.1).cos()).collect();

    let threshold = 500;
    let indices = lttb(&x, &y, threshold);

    assert_eq!(indices.len(), threshold);
    assert_eq!(indices[0], 0);
    assert_eq!(*indices.last().unwrap(), n - 1);

    // Indices should be strictly increasing (no duplicates, monotonic).
    for w in indices.windows(2) {
        assert!(w[0] < w[1], "indices must be strictly increasing");
    }
}

#[test]
fn minmax_large_dataset_smoke() {
    let n = 100_000;
    let x: Vec<f64> = (0..n).map(|i| i as f64).collect();
    let y: Vec<f64> = x.iter().map(|v| (v * 0.01).sin()).collect();

    let threshold = 500;
    let indices = minmax(&x, &y, threshold);

    assert!(indices.len() <= threshold);
    assert_eq!(indices[0], 0);
    assert_eq!(*indices.last().unwrap(), n - 1);

    // Indices should be strictly increasing.
    for w in indices.windows(2) {
        assert!(w[0] < w[1], "indices must be strictly increasing");
    }
}


#[test]
fn lttb_bucket_boundaries_no_gaps_or_overlaps() {
    // With 12 points and threshold=6, we have 4 buckets over 10 interior
    // points. Verify every interior point is in exactly one bucket.
    let n = 12;
    let x: Vec<f64> = (0..n).map(|i| i as f64).collect();
    let y: Vec<f64> = x.clone();

    let threshold = 6;
    let indices = lttb(&x, &y, threshold);

    assert_eq!(indices.len(), threshold);
    assert_eq!(indices[0], 0);
    assert_eq!(*indices.last().unwrap(), n as usize - 1);

    // All selected indices should be within range.
    for &idx in &indices {
        assert!(idx < n as usize);
    }
}

#[test]
fn lttb_all_nan_returns_empty() {
    let x = vec![f64::NAN; 5];
    let y = vec![f64::NAN; 5];
    let indices = lttb(&x, &y, 3);
    assert!(indices.is_empty());
}

#[test]
fn minmax_all_nan_returns_empty() {
    let x = vec![f64::NAN; 5];
    let y = vec![f64::NAN; 5];
    let indices = minmax(&x, &y, 3);
    assert!(indices.is_empty());
}

#[test]
fn lttb_indices_are_sorted() {
    let n = 200;
    let x: Vec<f64> = (0..n).map(|i| i as f64).collect();
    let y: Vec<f64> = x.iter().map(|v| (v * 0.1).sin()).collect();
    let indices = lttb(&x, &y, 20);
    for w in indices.windows(2) {
        assert!(w[0] < w[1], "LTTB indices must be strictly increasing");
    }
}
