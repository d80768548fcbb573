use blend2d_bench::format::{format_cpms, format_size_label, throughput_e4};
use blend2d_bench::text::{decimal_string, sanitize, truncate};

#[test]
fn zero_duration_zero_throughput() {
    // duration zero yields throughput zero regardless of quantity
    assert_eq!(throughput_e4(0, 0), 0);
    assert_eq!(throughput_e4(1, 0), 0);
    assert_eq!(throughput_e4(1_000_000, 0), 0);
}

#[test]
fn throughput_formula_exact() {
    // 1000 operations over 1000 microseconds is 1000 operations per
    // millisecond (fixed point with four decimal places)
    assert_eq!(throughput_e4(1000, 1000), 10_000_000);
    // 25 operations over 500 microseconds is 50 per millisecond
    assert_eq!(throughput_e4(25, 500), 500_000);
    // rounding is towards zero
    assert_eq!(throughput_e4(1, 3), 3_333_333);
}

#[test]
fn precision_scales_inversely_with_magnitude() {
    // 0.05 -> four decimals, 0.5 -> three, 5 -> two, 50 -> one, 500 -> none
    assert_eq!(format_cpms(500), "0.0500");
    assert_eq!(format_cpms(5_000), "0.500");
    assert_eq!(format_cpms(50_000), "5.00");
    assert_eq!(format_cpms(500_000), "50.0");
    assert_eq!(format_cpms(5_000_000), "500");
}

#[test]
fn formatting_edges() {
    assert_eq!(format_cpms(0), "0.0000");
    // the tiers have strict boundaries: four decimals strictly below 0.1
    assert_eq!(format_cpms(999), "0.0999");
    assert_eq!(format_cpms(1_000), "0.100");
    assert_eq!(format_cpms(1_001), "0.100");
    // and three strictly below 1.0
    assert_eq!(format_cpms(9_999), "1.000");
    assert_eq!(format_cpms(10_000), "1.00");
    assert_eq!(format_cpms(10_050), "1.01");
    // dropped digits round half up
    assert_eq!(format_cpms(12_345), "1.23");
    assert_eq!(format_cpms(12_350), "1.24");
    assert_eq!(format_cpms(999_440), "99.9");
    assert_eq!(format_cpms(999_950), "100.0");
    assert_eq!(format_cpms(1_000_000), "100");
    assert_eq!(format_cpms(1_004_999), "100");
    assert_eq!(format_cpms(1_005_000), "101");
}

#[test]
fn size_labels_are_square() {
    assert_eq!(format_size_label(8), "8x8");
    assert_eq!(format_size_label(256), "256x256");
}

#[test]
fn decimal_rendering() {
    assert_eq!(decimal_string(0), "0");
    assert_eq!(decimal_string(907), "907");
    assert_eq!(decimal_string(u64::MAX as u128), "18446744073709551615");
}

#[test]
fn truncate_keeps_short_strings() {
    assert_eq!(truncate("FillRectA", 20), "FillRectA");
    assert_eq!(truncate("averylongbackendname", 8), "averylon");
    assert_eq!(truncate("", 4), "");
}

#[test]
fn sanitize_replaces_unfit_characters() {
    assert_eq!(sanitize("images/FillRectA-SrcOver.png"), "images/FillRectA-SrcOver.png");
    assert_eq!(sanitize("Vello CPU ST"), "Vello_CPU_ST");
    assert_eq!(sanitize("a b:c*d"), "a_b_c_d");
}
