use sandbench::config::configs;
use sandbench::timing::{diff_pct, overhead_row, TimingSample};

#[test]
fn delta_exact_values() {
    // hundredths of a percent, rounded towards zero
    assert_eq!(diff_pct(100, 150), 5000);
    assert_eq!(diff_pct(200, 100), -5000);
    assert_eq!(diff_pct(100, 101), 100);
    assert_eq!(diff_pct(1000, 1001), 10);
    assert_eq!(diff_pct(3, 3), 0);
    assert_eq!(diff_pct(7, 2), -7142);
}

#[test]
fn delta_zero_and_antisymmetric_in_sign() {
    assert_eq!(diff_pct(42, 42), 0);
    let pairs: [(u64, u64); 4] = [(100, 150), (7, 3), (1, 1_000_000), (123_456_789, 123_456_788)];
    for (a, b) in pairs {
        let ab = diff_pct(a, b);
        let ba = diff_pct(b, a);
        assert!((ab >= 0 && ba <= 0) || (ab <= 0 && ba >= 0));
    }
}

#[test]
fn two_samples_one_baseline() {
    // two configurations timed on the same input report two samples, both
    // compared against the same recorded native duration
    let cs = configs();
    let static_unmitigated = TimingSample { config: cs[0], nanos: 1500 };
    let dynamic_mitigated = TimingSample { config: cs[3], nanos: 900 };
    let native: u64 = 1000;
    let row = overhead_row(&vec![static_unmitigated, dynamic_mitigated], native);
    assert_eq!(row.len(), 2);
    assert_eq!(row[0], diff_pct(native, static_unmitigated.nanos));
    assert_eq!(row[1], diff_pct(native, dynamic_mitigated.nanos));
    assert_eq!(row[0], 5000);
    assert_eq!(row[1], -1000);
}

#[test]
fn overhead_row_keeps_sample_order() {
    let cs = configs();
    let samples: Vec<TimingSample> = (0..8)
        .map(|i| TimingSample { config: cs[i], nanos: 1000 + 100 * i as u64 })
        .collect();
    let row = overhead_row(&samples, 1000);
    assert_eq!(row.len(), 8);
    for (i, d) in row.iter().enumerate() {
        assert_eq!(*d, 1000 * i as i128);
    }
}
