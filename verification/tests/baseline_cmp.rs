use blend2d_bench::baseline::{
    classify_delta, format_cell, format_delta_text, parse_size_label, parse_value_e4, Baseline,
    BaselineRecord, BaselineRun, BaselineSum, CellData, DeltaClass,
};
use blend2d_bench::config::ConfigError;

#[test]
fn delta_classification_boundaries() {
    // 103 vs 100 -> +3.0% -> improvement (the boundary is inclusive)
    assert_eq!(classify_delta(1_030_000, 1_000_000), DeltaClass::Improvement);
    // 97 vs 100 -> -3.0% -> regression
    assert_eq!(classify_delta(970_000, 1_000_000), DeltaClass::Regression);
    // 100 vs 100 -> 0% -> noise
    assert_eq!(classify_delta(1_000_000, 1_000_000), DeltaClass::Noise);
    // just inside the boundary on both sides
    assert_eq!(classify_delta(1_029_999, 1_000_000), DeltaClass::Noise);
    assert_eq!(classify_delta(970_001, 1_000_000), DeltaClass::Noise);
    assert_eq!(classify_delta(1_030_001, 1_000_000), DeltaClass::Improvement);
    assert_eq!(classify_delta(969_999, 1_000_000), DeltaClass::Regression);
}

#[test]
fn delta_text_rendering() {
    assert_eq!(format_delta_text(1_030_000, 1_000_000), "+3.0%");
    assert_eq!(format_delta_text(970_000, 1_000_000), "-3.0%");
    assert_eq!(format_delta_text(1_000_000, 1_000_000), "+0.0%");
    assert_eq!(format_delta_text(2_000_000, 1_000_000), "+100.0%");
    assert_eq!(format_delta_text(1_004_999, 1_000_000), "+0.5%");
    assert_eq!(format_delta_text(1_005_001, 1_000_000), "+0.5%");
}

#[test]
fn sum_errors_are_sticky() {
    // pushing one error then one success finishes as that error
    let mut sum = BaselineSum::default();
    sum.push(Err(String::from("missing baseline value")));
    sum.push(Ok(5_000));
    assert_eq!(sum.finish(), Err(String::from("missing baseline value")));
}

#[test]
fn sum_keeps_first_error() {
    let mut sum = BaselineSum::default();
    sum.push(Err(String::from("first")));
    sum.push(Err(String::from("second")));
    sum.push(Ok(1));
    assert_eq!(sum.finish(), Err(String::from("first")));
}

#[test]
fn sum_of_successes_is_exact() {
    // pushing only successes sums them exactly
    let mut sum = BaselineSum::default();
    sum.push(Ok(1_230_000));
    sum.push(Ok(45_000));
    sum.push(Ok(7));
    assert_eq!(sum.finish(), Ok(1_275_007));
}

#[test]
fn empty_sum_is_a_missing_value() {
    let sum = BaselineSum::default();
    assert_eq!(sum.finish(), Err(String::from("missing baseline value")));
}

#[test]
fn value_strings_read_back_exactly() {
    // the parser reads what the formatter writes, in fixed point
    assert_eq!(parse_value_e4("0.0500"), Some(500));
    assert_eq!(parse_value_e4("0.500"), Some(5_000));
    assert_eq!(parse_value_e4("5.00"), Some(50_000));
    assert_eq!(parse_value_e4("50.0"), Some(500_000));
    assert_eq!(parse_value_e4("500"), Some(5_000_000));
    assert_eq!(parse_value_e4("0"), Some(0));
    // extra fraction digits beyond the fourth are dropped
    assert_eq!(parse_value_e4("1.23456"), Some(12_345));
    // anything that is not a plain decimal reads as nothing
    assert_eq!(parse_value_e4(""), None);
    assert_eq!(parse_value_e4("-"), None);
    assert_eq!(parse_value_e4("1."), None);
    assert_eq!(parse_value_e4(".5"), None);
    assert_eq!(parse_value_e4("1.2.3"), None);
    assert_eq!(parse_value_e4("1e9"), None);
}

#[test]
fn size_labels_parse_their_leading_number() {
    assert_eq!(parse_size_label("8x8").unwrap(), 8);
    assert_eq!(parse_size_label(" 16 x16").unwrap(), 16);
    assert_eq!(parse_size_label("256").unwrap(), 256);
    match parse_size_label("axb") {
        Err(ConfigError::InvalidSizeLabel(label)) => assert_eq!(label, "axb"),
        other => panic!("expected an invalid-label error, got {:?}", other),
    }
}

fn sample_baseline() -> Baseline {
    let labels = vec![String::from("8x8"), String::from("16x16")];
    let runs = vec![BaselineRun {
        name: String::from("Vello CPU ST"),
        records: vec![
            BaselineRecord {
                test_name: String::from("FillRectA"),
                rcpms: vec![String::from("123"), String::from("4.5")],
            },
            BaselineRecord {
                test_name: String::from("FillRectU"),
                rcpms: vec![String::from("bad"), String::from("7")],
            },
        ],
    }];
    Baseline::build(&labels, &runs).unwrap()
}

#[test]
fn baseline_lookup_finds_recorded_cells() {
    let b = sample_baseline();
    assert_eq!(b.lookup("Vello CPU ST", "FillRectA", 8), Ok(1_230_000));
    assert_eq!(b.lookup("Vello CPU ST", "FillRectA", 16), Ok(45_000));
    assert_eq!(b.lookup("Vello CPU ST", "FillRectU", 16), Ok(70_000));
}

#[test]
fn baseline_lookup_misses_are_per_cell() {
    let b = sample_baseline();
    // an unparsable value leaves that cell missing, nothing more
    assert_eq!(
        b.lookup("Vello CPU ST", "FillRectU", 8),
        Err(String::from("missing baseline value"))
    );
    assert_eq!(
        b.lookup("Vello CPU 2T", "FillRectA", 8),
        Err(String::from("missing baseline value"))
    );
    assert_eq!(
        b.lookup("Vello CPU ST", "FillRectA", 32),
        Err(String::from("missing baseline value"))
    );
}

#[test]
fn baseline_later_entries_shadow_earlier_ones() {
    let labels = vec![String::from("8x8")];
    let runs = vec![BaselineRun {
        name: String::from("B"),
        records: vec![
            BaselineRecord { test_name: String::from("T"), rcpms: vec![String::from("1")] },
            BaselineRecord { test_name: String::from("T"), rcpms: vec![String::from("2")] },
        ],
    }];
    let b = Baseline::build(&labels, &runs).unwrap();
    assert_eq!(b.lookup("B", "T", 8), Ok(20_000));
}

#[test]
fn baseline_bad_label_is_fatal() {
    let labels = vec![String::from("8x8"), String::from("??")];
    let runs: Vec<BaselineRun> = Vec::new();
    assert!(matches!(
        Baseline::build(&labels, &runs),
        Err(ConfigError::InvalidSizeLabel(_))
    ));
}

#[test]
fn cells_carry_colored_annotations() {
    // no baseline: the bare formatted value
    let plain = CellData::new(1_030_000, String::from("103"), None);
    assert_eq!(format_cell(&plain), "103");
    // an improvement is marked green
    let up = CellData::new(1_030_000, String::from("103"), Some(Ok(1_000_000)));
    assert_eq!(format_cell(&up), "103 \u{1b}[32m+3.0%\u{1b}[39m");
    // a regression is marked red
    let down = CellData::new(970_000, String::from("97.0"), Some(Ok(1_000_000)));
    assert_eq!(format_cell(&down), "97.0 \u{1b}[31m-3.0%\u{1b}[39m");
    // noise is dimmed
    let flat = CellData::new(1_000_000, String::from("100"), Some(Ok(1_000_000)));
    assert_eq!(format_cell(&flat), "100 \u{1b}[90m+0.0%\u{1b}[39m");
    // a zero baseline is an explicit annotation, not a division
    let zero = CellData::new(1_000_000, String::from("100"), Some(Ok(0)));
    assert_eq!(format_cell(&zero), "100 \u{1b}[31m(baseline 0)\u{1b}[39m");
    // a missing entry is an explicit annotation
    let missing = CellData::new(
        1_000_000,
        String::from("100"),
        Some(Err(String::from("missing baseline value"))),
    );
    assert_eq!(
        format_cell(&missing),
        "100 \u{1b}[31m(missing baseline value)\u{1b}[39m"
    );
}
