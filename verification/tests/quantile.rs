use tcping::quantile::{sorted_copy, P2Quantile};

const MS: u64 = 1_000_000;

fn estimate_after(samples_ms: &[u64]) -> Option<u64> {
    let mut q = P2Quantile::new();
    for s in samples_ms {
        q.observe(s * MS);
    }
    q.estimate()
}

#[test]
fn nothing_observed_gives_no_estimate() {
    let q = P2Quantile::new();
    assert_eq!(q.estimate(), None);
    assert_eq!(q.count(), 0);
    assert_eq!(P2Quantile::estimate_from_samples(&vec![]), None);
}

#[test]
fn one_sample_is_its_own_estimate() {
    assert_eq!(estimate_after(&[7]), Some(7 * MS));
    assert_eq!(P2Quantile::estimate_from_samples(&vec![7]), Some(7));
}

#[test]
fn fewer_than_five_samples_are_interpolated_in_order() {
    // rank 0.95 * 1 = 0.95 between 5 and 10
    assert_eq!(estimate_after(&[5, 10]), Some(9_750_000));
    assert_eq!(estimate_after(&[10, 5]), Some(9_750_000));
    // rank 0.95 * 2 = 1.9 between 10 and 15
    assert_eq!(estimate_after(&[10, 5, 15]), Some(14_500_000));
    // rank 0.95 * 3 = 2.85 between 30 and 40
    assert_eq!(estimate_after(&[40, 10, 30, 20]), Some(38_500_000));
}

#[test]
fn interpolation_is_cut_to_a_whole_number() {
    // rank 2.85 between 3 and 4: 3.85
    assert_eq!(P2Quantile::estimate_from_samples(&vec![1, 2, 3, 4]), Some(3));
    // rank 0.95 between 0 and u64::MAX
    assert_eq!(
        P2Quantile::estimate_from_samples(&vec![0, u64::MAX]),
        Some((u64::MAX as u128 * 19 / 20) as u64)
    );
}

#[test]
fn interpolation_takes_the_sample_itself_at_a_whole_rank() {
    // 21 samples: rank 0.95 * 20 = 19
    let samples: Vec<u64> = (0..21).rev().map(|v| v * 10).collect();
    assert_eq!(P2Quantile::estimate_from_samples(&samples), Some(190));
}

#[test]
fn the_fifth_sample_makes_the_markers() {
    // the middle marker is the third of the five in order
    assert_eq!(estimate_after(&[10, 5, 15, 25, 20]), Some(15 * MS));
    let mut q = P2Quantile::new();
    for s in [10, 5, 15, 25, 20] {
        q.observe(s);
    }
    assert_eq!(q.count(), 5);
}

#[test]
fn markers_follow_the_stream() {
    assert_eq!(estimate_after(&[10, 5, 15, 20, 25, 30]), Some(15 * MS));
    let ramp: Vec<u64> = (1..=20).collect();
    assert_eq!(estimate_after(&ramp), Some(17 * MS));
    assert_eq!(
        estimate_after(&[12, 3, 45, 7, 19, 23, 8, 31, 2, 27, 14, 9, 40, 6, 18]),
        Some(38_137_036)
    );
    assert_eq!(estimate_after(&[50, 40, 30, 20, 10, 5, 4, 3, 2, 1]), Some(30 * MS));
}

#[test]
fn equal_samples_keep_the_markers_together() {
    assert_eq!(estimate_after(&[7; 9]), Some(7 * MS));
}

#[test]
fn estimate_lies_between_the_extremes() {
    let mut q = P2Quantile::new();
    let mut state: u64 = 0x2545_f491_4f6c_dd1d;
    let mut low = u64::MAX;
    let mut high = 0;
    for _ in 0..2000 {
        state ^= state << 13;
        state ^= state >> 7;
        state ^= state << 17;
        let sample = state % 5_000_000_000;
        low = low.min(sample);
        high = high.max(sample);
        q.observe(sample);
        let e = q.estimate().unwrap();
        assert!(low <= e && e <= high);
    }
    assert_eq!(q.count(), 2000);
}

#[test]
fn extreme_durations_do_not_overflow() {
    let mut q = P2Quantile::new();
    for i in 0..200u64 {
        q.observe(if i % 2 == 0 { u64::MAX - i } else { i });
    }
    let e = q.estimate().unwrap();
    assert!(e >= 1);
}

#[test]
fn sorted_copy_orders_and_keeps_every_sample() {
    assert_eq!(sorted_copy(&vec![3, 1, 2, 1, 0, u64::MAX]), vec![0, 1, 1, 2, 3, u64::MAX]);
    assert_eq!(sorted_copy(&vec![]), Vec::<u64>::new());
}
