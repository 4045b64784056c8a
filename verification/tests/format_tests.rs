use host_metrics::format::HumanReadable;

#[test]
fn zero_is_plain() {
    assert_eq!(u64::to_human(0, None), "0");
}

#[test]
fn below_one_thousand_has_no_unit() {
    assert_eq!(u64::to_human(999, None), "999");
    assert_eq!(u64::to_human(7, None), "7");
    assert_eq!(u64::to_human(10, Some(5)), "10");
    assert_eq!(u64::to_human(999, Some(0)), "999");
}

#[test]
fn one_thousand_is_one_kilobyte() {
    assert_eq!(u64::to_human(1000, None), "1.00 KB");
}

#[test]
fn megabytes_with_default_precision() {
    assert_eq!(u64::to_human(1_500_000, None), "1.50 MB");
    assert_eq!(u64::to_human(1_000_000, None), "1.00 MB");
    assert_eq!(u64::to_human(1_234_567, None), "1.23 MB");
}

#[test]
fn gigabytes_with_default_precision() {
    assert_eq!(u64::to_human(2_500_000_000, None), "2.50 GB");
    assert_eq!(u64::to_human(1_000_000_000, None), "1.00 GB");
}

#[test]
fn precision_zero_has_no_point() {
    assert_eq!(u64::to_human(1000, Some(0)), "1 KB");
    assert_eq!(u64::to_human(1_400_000, Some(0)), "1 MB");
    assert_eq!(u64::to_human(1_600_000, Some(0)), "2 MB");
}

#[test]
fn explicit_precision_matches_default() {
    assert_eq!(u64::to_human(123_456, Some(2)), u64::to_human(123_456, None));
    assert_eq!(u64::to_human(123_456, Some(2)), "123.46 KB");
}

#[test]
fn tier_bounds_are_inclusive_below() {
    assert_eq!(u64::to_human(999_999, Some(3)), "999.999 KB");
    assert_eq!(u64::to_human(1_000_000, Some(3)), "1.000 MB");
    assert_eq!(u64::to_human(999_999_999, Some(6)), "999.999999 MB");
    assert_eq!(u64::to_human(1_000_000_000, Some(6)), "1.000000 GB");
}

#[test]
fn rounding_can_reach_one_thousand_in_the_lower_unit() {
    assert_eq!(u64::to_human(999_999, None), "1000.00 KB");
    assert_eq!(u64::to_human(999_999, Some(0)), "1000 KB");
    assert_eq!(u64::to_human(999_999_999, Some(1)), "1000.0 MB");
}

#[test]
fn rounds_to_nearest() {
    assert_eq!(u64::to_human(1_004, None), "1.00 KB");
    assert_eq!(u64::to_human(1_006, None), "1.01 KB");
    assert_eq!(u64::to_human(1_994, Some(1)), "2.0 KB");
    assert_eq!(u64::to_human(1_449, Some(1)), "1.4 KB");
}

#[test]
fn ties_go_to_the_even_neighbour() {
    assert_eq!(u64::to_human(1_500, Some(0)), "2 KB");
    assert_eq!(u64::to_human(2_500, Some(0)), "2 KB");
    assert_eq!(u64::to_human(3_500, Some(0)), "4 KB");
    assert_eq!(u64::to_human(1_005, None), "1.00 KB");
    assert_eq!(u64::to_human(1_015, None), "1.02 KB");
    assert_eq!(u64::to_human(1_250_000, Some(1)), "1.2 MB");
    assert_eq!(u64::to_human(1_350_000, Some(1)), "1.4 MB");
}

#[test]
fn large_precision_pads_with_zeros() {
    assert_eq!(u64::to_human(1_234, Some(3)), "1.234 KB");
    assert_eq!(u64::to_human(1_234, Some(5)), "1.23400 KB");
    assert_eq!(u64::to_human(1_234_567_890, Some(9)), "1.234567890 GB");
    assert_eq!(u64::to_human(1_234_567_890, Some(12)), "1.234567890000 GB");
    let widest = u64::to_human(1_000, Some(255));
    assert_eq!(widest.len(), 2 + 255 + 3);
    assert!(widest.starts_with("1.0"));
    assert!(widest.ends_with("0 KB"));
    assert_eq!(widest.matches('0').count(), 255);
}

#[test]
fn largest_value() {
    assert_eq!(u64::to_human(u64::MAX, None), "18446744073.71 GB");
    assert_eq!(u64::to_human(u64::MAX, Some(0)), "18446744074 GB");
    assert_eq!(u64::to_human(u64::MAX, Some(9)), "18446744073.709551615 GB");
}

#[test]
fn distinct_values_in_one_tier_differ_unless_rounding_merges_them() {
    assert_ne!(u64::to_human(1_000, None), u64::to_human(1_010, None));
    assert_ne!(u64::to_human(5, None), u64::to_human(6, None));
    assert_ne!(u64::to_human(1_000, Some(3)), u64::to_human(1_001, Some(3)));
    assert_eq!(u64::to_human(1_000, None), u64::to_human(1_001, None));
    let mut previous = u64::to_human(1_000, Some(3));
    let mut value: u64 = 1_001;
    while value < 1_200 {
        let text = u64::to_human(value, Some(3));
        assert_ne!(text, previous);
        previous = text;
        value += 1;
    }
}

#[test]
fn values_in_different_tiers_differ() {
    assert_ne!(u64::to_human(1_000, None), u64::to_human(1_000_000, None));
    assert_ne!(u64::to_human(1_000_000, None), u64::to_human(1_000_000_000, None));
    assert_ne!(u64::to_human(1, None), u64::to_human(1_000, Some(0)));
}
