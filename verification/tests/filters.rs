use blend2d_bench::catalog::{find_comp_op, find_test, comp_op, RenderOp, ShapeKind, TestKind};
use blend2d_bench::config::{parse_sizes, parse_toggle_list, Blend2dArgs, BenchmarkConfig, ConfigError};

#[test]
fn additive_filter_selects_exactly_the_named_set() {
    // filter "A,B" selects exactly {A, B}
    let r = parse_toggle_list(Some("FillRectA,FillRectU")).unwrap();
    assert_eq!(r, vec![TestKind::FillRectA, TestKind::FillRectU]);
}

#[test]
fn subtractive_filter_selects_default_minus_named() {
    // filter "-A" selects the default set without A
    let r = parse_toggle_list(Some("-FillRectA")).unwrap();
    assert_eq!(r.len(), 28);
    assert!(!r.contains(&TestKind::FillRectA));
    assert!(r.contains(&TestKind::FillRectU));
    assert!(r.contains(&TestKind::StrokeWorld));
}

#[test]
fn mixed_filter_modes_fail() {
    // filter "A,-B" mixes modes and is a configuration error
    let r = parse_toggle_list(Some("FillRectA,-FillRectU"));
    assert!(matches!(r, Err(ConfigError::MixedToggleModes)));
    let r2 = parse_toggle_list(Some("-FillRectA,FillRectU"));
    assert!(matches!(r2, Err(ConfigError::MixedToggleModes)));
}

#[test]
fn unknown_filter_entry_fails() {
    let r = parse_toggle_list(Some("FillRectA,NoSuchTest"));
    match r {
        Err(ConfigError::UnknownEntry(name)) => assert_eq!(name, "NoSuchTest"),
        other => panic!("expected an unknown-entry error, got {:?}", other),
    }
}

#[test]
fn filter_is_case_insensitive_and_trims() {
    let r = parse_toggle_list(Some(" fillrecta , STROKEWORLD ,")).unwrap();
    assert_eq!(r, vec![TestKind::FillRectA, TestKind::StrokeWorld]);
}

#[test]
fn no_filter_selects_whole_catalog() {
    let r = parse_toggle_list(None).unwrap();
    assert_eq!(r.len(), 29);
    assert_eq!(r, TestKind::all());
}

#[test]
fn duplicate_filter_entries_collapse() {
    let r = parse_toggle_list(Some("FillRectA,fillrecta,FillRectA")).unwrap();
    assert_eq!(r, vec![TestKind::FillRectA]);
}

#[test]
fn size_list_parses_numbers() {
    assert_eq!(parse_sizes("8,16,32").unwrap(), vec![8, 16, 32]);
    assert_eq!(parse_sizes(" 8 , ,16 ").unwrap(), vec![8, 16]);
    assert_eq!(parse_sizes("4294967295").unwrap(), vec![u32::MAX]);
}

#[test]
fn size_list_rejects_bad_entries() {
    match parse_sizes("8,big,16") {
        Err(ConfigError::InvalidSize(part)) => assert_eq!(part, "big"),
        other => panic!("expected an invalid-size error, got {:?}", other),
    }
    assert!(matches!(parse_sizes("4294967296"), Err(ConfigError::InvalidSize(_))));
    assert!(matches!(parse_sizes(""), Err(ConfigError::NoSizes)));
    assert!(matches!(parse_sizes(", ,"), Err(ConfigError::NoSizes)));
}

fn args() -> Blend2dArgs {
    Blend2dArgs {
        width: 512,
        height: 600,
        quantity: 0,
        size_count: 6,
        min_runs: 50,
        size_list: None,
        test_list: None,
        threads: vec![0, 2, 4, 8],
        preview: false,
        baseline: None,
        json_path: String::from("results.json"),
    }
}

#[test]
fn config_defaults() {
    let c = BenchmarkConfig::from_args(args()).unwrap();
    assert_eq!(c.width, 512);
    assert_eq!(c.height, 600);
    assert_eq!(c.quantity, 0);
    assert_eq!(c.min_runs, 50);
    assert_eq!(c.sizes, vec![8, 16, 32, 64, 128, 256]);
    assert_eq!(c.tests.len(), 29);
    assert_eq!(c.threads, vec![0, 2, 4, 8]);
}

#[test]
fn config_threads_sorted_unique_with_default() {
    let mut a = args();
    a.threads = vec![4, 2, 4, 0, 2];
    let c = BenchmarkConfig::from_args(a).unwrap();
    assert_eq!(c.threads, vec![0, 2, 4]);

    let mut b = args();
    b.threads = vec![];
    let c2 = BenchmarkConfig::from_args(b).unwrap();
    assert_eq!(c2.threads, vec![0]);
}

#[test]
fn config_preview_reduces_quantity() {
    let mut a = args();
    a.preview = true;
    a.quantity = 777;
    let c = BenchmarkConfig::from_args(a).unwrap();
    assert!(c.preview);
    assert_eq!(c.quantity, 10);
}

#[test]
fn config_size_count_prefix_and_explicit_list() {
    let mut a = args();
    a.size_count = 3;
    let c = BenchmarkConfig::from_args(a).unwrap();
    assert_eq!(c.sizes, vec![8, 16, 32]);

    let mut b = args();
    b.size_list = Some(String::from("7,9"));
    let c2 = BenchmarkConfig::from_args(b).unwrap();
    assert_eq!(c2.sizes, vec![7, 9]);

    let mut e = args();
    e.size_list = Some(String::from("oops"));
    assert!(matches!(BenchmarkConfig::from_args(e), Err(ConfigError::InvalidSize(_))));
}

#[test]
fn config_min_runs_floor() {
    let mut a = args();
    a.min_runs = 0;
    let c = BenchmarkConfig::from_args(a).unwrap();
    assert_eq!(c.min_runs, 1);
}

#[test]
fn test_lookup_by_name() {
    assert_eq!(find_test("FillRectA"), Some(TestKind::FillRectA));
    assert_eq!(find_test("fillpolynzi10"), Some(TestKind::FillPolyNZ10));
    assert_eq!(find_test("nope"), None);
}

#[test]
fn comp_op_lookup_and_unsupported_entries() {
    assert_eq!(find_comp_op("SrcOver"), Some(0));
    assert_eq!(find_comp_op("srccopy"), Some(1));
    assert_eq!(find_comp_op("Exclusion"), Some(28));
    assert_eq!(find_comp_op("nothing"), None);
    // the entries without an executable blend mode are explicitly
    // unsupported, not silently defaulted
    assert!(comp_op(find_comp_op("Minus").unwrap()).mode.is_none());
    assert!(comp_op(find_comp_op("LinearBurn").unwrap()).mode.is_none());
    assert!(comp_op(find_comp_op("LinearLight").unwrap()).mode.is_none());
    assert!(comp_op(find_comp_op("PinLight").unwrap()).mode.is_none());
    assert!(comp_op(0).mode.is_some());
}

#[test]
fn test_kind_metadata() {
    assert_eq!(TestKind::FillRectA.name(), "FillRectA");
    assert_eq!(TestKind::FillPolyNZ10.name(), "FillPolyNZi10");
    assert_eq!(TestKind::FillRectA.render_op(), RenderOp::FillNonZero);
    assert_eq!(TestKind::FillPolyEO20.render_op(), RenderOp::FillEvenOdd);
    assert_eq!(TestKind::StrokeWorld.render_op(), RenderOp::Stroke);
    assert_eq!(TestKind::FillTriangle.polygon_complexity(), Some(3));
    assert_eq!(TestKind::StrokePoly40.polygon_complexity(), Some(40));
    assert_eq!(TestKind::FillRectA.polygon_complexity(), None);
    assert_eq!(TestKind::FillButterfly.shape(), Some(ShapeKind::Butterfly));
    assert_eq!(TestKind::StrokeDragon.shape(), Some(ShapeKind::Dragon));
    assert_eq!(TestKind::FillRectA.shape(), None);
}

#[test]
fn config_error_messages() {
    assert_eq!(
        ConfigError::UnknownEntry(String::from("Zig")).message(),
        "Unknown entry 'Zig'"
    );
    assert_eq!(
        ConfigError::MixedToggleModes.message(),
        "Cannot mix additive and subtractive entries"
    );
    assert_eq!(ConfigError::NoSizes.message(), "No sizes provided");
    assert_eq!(
        ConfigError::InvalidSize(String::from("big")).message(),
        "Invalid size 'big'"
    );
}
