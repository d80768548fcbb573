use blend2d_bench::backend::{backend_label, ScriptedBackend};
use blend2d_bench::baseline::{Baseline, BaselineRecord, BaselineRun};
use blend2d_bench::config::{Blend2dArgs, BenchmarkConfig};
use blend2d_bench::json::{JsonRecord, JsonWriter};
use blend2d_bench::runner::{make_border, BenchRunner};

fn args() -> Blend2dArgs {
    Blend2dArgs {
        width: 512,
        height: 600,
        quantity: 50,
        size_count: 6,
        min_runs: 2,
        size_list: Some(String::from("8,16")),
        test_list: Some(String::from("FillRectA,FillRectU")),
        threads: vec![0],
        preview: false,
        baseline: None,
        json_path: String::from("results.json"),
    }
}

fn expected_border() -> String {
    let mut b = String::from("+");
    b.push_str(&"-".repeat(20));
    b.push('+');
    b.push_str(&"-".repeat(13));
    b.push('+');
    b.push_str(&"-".repeat(15));
    b.push('+');
    for _ in 0..6 {
        b.push_str(&"-".repeat(18));
        b.push('+');
    }
    b
}

#[test]
fn backend_labels_encode_the_thread_count() {
    assert_eq!(backend_label(0), "Vello CPU ST");
    assert_eq!(backend_label(1), "Vello CPU 1T");
    assert_eq!(backend_label(8), "Vello CPU 8T");
    assert_eq!(backend_label(16), "Vello CPU 16T");
}

#[test]
fn border_shape() {
    assert_eq!(make_border(6), expected_border());
}

#[test]
fn one_backend_produces_table_and_records() {
    let config = BenchmarkConfig::from_args(args()).unwrap();
    let mut runner = BenchRunner::new(config, None);
    // two tests, two sizes, two timed runs per cell
    let mut backend = ScriptedBackend::new(vec![
        1000, 1000, // FillRectA at 8
        500, 600, // FillRectA at 16
        2000, 1000, // FillRectU at 8
        250, 500, // FillRectU at 16
    ]);
    let report = runner.run_backend(&mut backend);
    assert_eq!(backend.consumed(), 8);

    // the table: border, header, border, one row per test, total, border
    assert_eq!(report.lines.len(), 7);
    assert_eq!(report.lines[0], expected_border());
    assert_eq!(report.lines[2], expected_border());
    assert_eq!(report.lines[6], expected_border());
    assert_eq!(
        report.lines[1],
        format!(
            "|{:<20}| {:<11} | {:<13} | {:<18}| {:<18}| {:<18}| {:<18}| {:<18}| {:<18}|",
            "Scripted", "SrcOver", "Solid", "8x8", "16x16", "-", "-", "-", "-"
        )
    );
    // 50 operations over best 1000us = 50 cpms; over 500us = 100; over
    // 1000us = 50; over 250us = 200
    assert_eq!(
        report.lines[3],
        format!(
            "|{:<20}| {:<11} | {:<13} | {:<18}| {:<18}| {:<18}| {:<18}| {:<18}| {:<18}|",
            "FillRectA", "SrcOver", "Solid", "50.0", "100", "-", "-", "-", "-"
        )
    );
    assert_eq!(
        report.lines[4],
        format!(
            "|{:<20}| {:<11} | {:<13} | {:<18}| {:<18}| {:<18}| {:<18}| {:<18}| {:<18}|",
            "FillRectU", "SrcOver", "Solid", "50.0", "200", "-", "-", "-", "-"
        )
    );
    assert_eq!(
        report.lines[5],
        format!(
            "|{:<20}| {:<11} | {:<13} | {:<18}| {:<18}| {:<18}| {:<18}| {:<18}| {:<18}|",
            "Total", "SrcOver", "Solid", "100", "300", "-", "-", "-", "-"
        )
    );
    // no preview, no overview images
    assert!(report.overviews.is_empty());

    // one run with one record per test was accumulated
    assert_eq!(runner.json.runs.len(), 1);
    let run = &runner.json.runs[0];
    assert_eq!(run.name, "Scripted");
    assert!(run.version.is_none());
    assert_eq!(run.records.len(), 2);
    assert_eq!(run.records[0].test_name, "FillRectA");
    assert_eq!(run.records[0].comp_op, "SrcOver");
    assert_eq!(run.records[0].style, "Solid");
    assert_eq!(run.records[0].rcpms, vec!["50.0", "100"]);
    assert_eq!(run.records[1].test_name, "FillRectU");
    assert_eq!(run.records[1].rcpms, vec!["50.0", "200"]);

    // the finished document carries everything over
    let doc = runner.finish(String::from("linux"), String::from("x86_64"));
    assert_eq!(doc.environment.os, "linux");
    assert_eq!(doc.cpu.arch, "x86_64");
    assert_eq!(doc.cpu.vendor, "unknown");
    assert_eq!(doc.cpu.brand, "unknown");
    assert_eq!(doc.screen.width, 512);
    assert_eq!(doc.screen.height, 600);
    assert_eq!(doc.screen.format, "prgb32");
    assert_eq!(doc.options.quantity, 50);
    assert_eq!(doc.options.repeat, 2);
    assert_eq!(doc.options.sizes, vec!["8x8", "16x16"]);
    assert_eq!(doc.runs.len(), 1);
}

#[test]
fn baseline_comparison_annotates_rows() {
    let labels = vec![String::from("8x8"), String::from("16x16")];
    let prior = vec![BaselineRun {
        name: String::from("Scripted"),
        records: vec![
            BaselineRecord {
                test_name: String::from("FillRectA"),
                rcpms: vec![String::from("50.0"), String::from("100")],
            },
            BaselineRecord {
                test_name: String::from("FillRectU"),
                rcpms: vec![String::from("25.0"), String::from("200")],
            },
        ],
    }];
    let baseline = Baseline::build(&labels, &prior).unwrap();
    let config = BenchmarkConfig::from_args(args()).unwrap();
    let mut runner = BenchRunner::new(config, Some(baseline));
    let mut backend = ScriptedBackend::new(vec![
        1000, 1000, // 50.0 against 50.0: noise
        500, 600, // 100 against 100: noise
        2000, 1000, // 50.0 against 25.0: +100.0% improvement
        250, 500, // 200 against 200: noise
    ]);
    let report = runner.run_backend(&mut backend);
    assert!(report.lines[3].contains("50.0 \u{1b}[90m+0.0%\u{1b}[39m"));
    assert!(report.lines[4].contains("50.0 \u{1b}[32m+100.0%\u{1b}[39m"));
    // the total row compares against the sum of the per-test baselines:
    // column one: 100 against 75 -> +33.3% improvement
    assert!(report.lines[5].contains("100 \u{1b}[32m+33.3%\u{1b}[39m"));
    // column two: 300 against 300 -> noise
    assert!(report.lines[5].contains("300 \u{1b}[90m+0.0%\u{1b}[39m"));
}

#[test]
fn missing_baseline_entries_stay_per_cell() {
    let labels = vec![String::from("8x8"), String::from("16x16")];
    let prior = vec![BaselineRun {
        name: String::from("Scripted"),
        records: vec![BaselineRecord {
            test_name: String::from("FillRectA"),
            rcpms: vec![String::from("50.0")],
        }],
    }];
    let baseline = Baseline::build(&labels, &prior).unwrap();
    let config = BenchmarkConfig::from_args(args()).unwrap();
    let mut runner = BenchRunner::new(config, Some(baseline));
    let mut backend = ScriptedBackend::new(vec![1000; 8]);
    let report = runner.run_backend(&mut backend);
    // the measured cell still shows its value; only the annotation says
    // the entry was missing
    assert!(report.lines[3].contains("50.0 \u{1b}[90m+0.0%\u{1b}[39m"));
    assert!(report.lines[3].contains("\u{1b}[31m(missing baseline value)\u{1b}[39m"));
    // the sticky-error law surfaces on the total row where any per-test
    // value was missing
    assert!(report.lines[5].contains("\u{1b}[31m(missing baseline value)\u{1b}[39m"));
}

#[test]
fn preview_mode_collects_overview_images() {
    let mut a = args();
    a.preview = true;
    let config = BenchmarkConfig::from_args(a).unwrap();
    // preview reduces the quantity to ten
    assert_eq!(config.quantity, 10);
    let mut runner = BenchRunner::new(config, None);
    let mut backend = ScriptedBackend::new(vec![1000; 8]);
    let report = runner.run_backend(&mut backend);
    assert_eq!(report.overviews.len(), 2);
    assert_eq!(report.overviews[0].0, "images/FillRectA-SrcOver-Solid-Scripted.png");
    assert_eq!(report.overviews[1].0, "images/FillRectU-SrcOver-Solid-Scripted.png");
    // room for two surfaces of the canvas width plus one pixel of frame
    assert_eq!(report.overviews[0].1.width, (512 + 1) * 2 + 1);
    assert_eq!(report.overviews[0].1.height, 602);
}

#[test]
fn json_writer_accumulates_runs() {
    let mut w = JsonWriter::new(512, 600, 0, 50, vec![8, 16, 32]);
    w.push_run(
        String::from("Scripted"),
        None,
        vec![JsonRecord {
            test_name: String::from("FillRectA"),
            comp_op: String::from("SrcOver"),
            style: String::from("Solid"),
            rcpms: vec![String::from("1.00")],
        }],
    );
    let doc = w.document(String::from("linux"), String::from("aarch64"));
    assert_eq!(doc.options.sizes, vec!["8x8", "16x16", "32x32"]);
    assert_eq!(doc.options.quantity, 0);
    assert_eq!(doc.options.repeat, 50);
    assert_eq!(doc.runs.len(), 1);
    assert_eq!(doc.runs[0].records[0].rcpms, vec!["1.00"]);
}
