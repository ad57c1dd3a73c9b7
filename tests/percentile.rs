use bust::percentile::{percentile_index, percentiles, percentiles_of_sorted, sorted_copy, Percentiles};

#[test]
fn median_of_four_is_the_third() {
    let p = percentiles(&[10, 20, 30, 40]);
    assert_eq!(p.p50, 30);
    assert_eq!(p.p100, 40);
}

#[test]
fn percentiles_sort_their_input() {
    let samples = [40, 10, 30, 20];
    assert_eq!(percentiles(&samples), percentiles(&[10, 20, 30, 40]));
    assert_eq!(samples, [40, 10, 30, 20]);
    assert_eq!(sorted_copy(&samples), vec![10, 20, 30, 40]);
}

#[test]
fn percentiles_of_twenty_samples() {
    let samples: Vec<u64> = (1..=20).rev().map(|i| i * 5).collect();
    let p = percentiles(&samples);
    assert_eq!(
        p,
        Percentiles { p50: 55, p75: 80, p90: 95, p95: 100, p100: 100 }
    );
}

#[test]
fn single_sample_fills_every_percentile() {
    let p = percentiles_of_sorted(&[7]);
    assert_eq!(p, Percentiles { p50: 7, p75: 7, p90: 7, p95: 7, p100: 7 });
}

#[test]
fn repeated_values() {
    let p = percentiles(&[5, 5, 1, 5]);
    assert_eq!(p, Percentiles { p50: 5, p75: 5, p90: 5, p95: 5, p100: 5 });
}

#[test]
fn percentile_indices_grow_with_the_percentile() {
    for len in 1..200usize {
        let mut last = 0;
        for p in 0..=100u32 {
            let i = percentile_index(len, p);
            assert!(i >= last && i < len);
            last = i;
        }
        assert_eq!(percentile_index(len, 100), len - 1);
        assert_eq!(percentile_index(len, 50), len / 2);
        assert_eq!(percentile_index(len, 75), 3 * len / 4);
        assert_eq!(percentile_index(len, 90), 9 * len / 10);
        assert_eq!(percentile_index(len, 95), 95 * len / 100);
    }
}

#[test]
fn top_percentile_is_the_maximum() {
    let samples = [3, 99, 42, 7, 99, 0];
    assert_eq!(percentiles(&samples).p100, 99);
}
