use blend2d_bench::backend::{Backend, BenchParams, ScriptedBackend, TimerGuard};
use blend2d_bench::calibrate::{run_single_test, Calibration};
use blend2d_bench::catalog::{comp_op, TestKind};

fn params() -> BenchParams {
    BenchParams {
        screen_width: 512,
        screen_height: 600,
        test: TestKind::FillRectA,
        comp_op: comp_op(0),
        shape_size: 8,
        quantity: 0,
        stroke_width: 2,
    }
}

#[test]
fn fixed_quantity_is_returned_unchanged() {
    // for a configured quantity the returned quantity always equals the
    // input quantity, and exactly min_runs attempts are performed
    let mut backend = ScriptedBackend::new(vec![400, 300, 350, 500, 320]);
    let mut p = params();
    let (best, quantity) = run_single_test(&mut backend, &mut p, 1234, 5);
    assert_eq!(quantity, 1234);
    assert_eq!(best, 300);
    assert_eq!(backend.consumed(), 5);
    assert_eq!(p.quantity, 1234);
}

#[test]
fn fixed_quantity_minimum_one_run() {
    let mut backend = ScriptedBackend::new(vec![400, 300]);
    let mut p = params();
    let (best, quantity) = run_single_test(&mut backend, &mut p, 10, 0);
    assert_eq!(quantity, 10);
    assert_eq!(best, 400);
    assert_eq!(backend.consumed(), 1);
}

#[test]
fn auto_detect_scales_geometrically() {
    // durations below 100 scale by ten, below 500 by three, otherwise by
    // two, until one batch reaches the 1000 microsecond floor
    let mut backend = ScriptedBackend::new(vec![50, 200, 600, 1500, 900, 800]);
    let mut p = params();
    let (best, quantity) = run_single_test(&mut backend, &mut p, 0, 3);
    // quantities tried: 25 -> 250 -> 750 -> 1500 (settles), then two more
    // sampling batches at 1500
    assert_eq!(quantity, 1500);
    assert_eq!(best, 800);
    assert_eq!(backend.consumed(), 6);
}

#[test]
fn auto_detect_stops_at_escape_hatch() {
    // a pathologically fast backend is stopped by the million-operation cap
    let mut backend = ScriptedBackend::new(vec![1; 16]);
    let mut p = params();
    let (_, quantity) = run_single_test(&mut backend, &mut p, 0, 1);
    // quantities: 25, 250, 2500, ..., the first over one million settles
    assert_eq!(quantity, 2_500_000);
    assert_eq!(backend.consumed(), 6);
}

#[test]
fn calibration_state_machine_monotone_quantity() {
    // the operation count never decreases across geometric-scaling steps
    let mut cal = Calibration::new(0, 1);
    let mut last = cal.next_quantity();
    assert_eq!(last, 25);
    for d in [40u64, 90, 150, 450, 700, 999, 2000] {
        if cal.done() {
            break;
        }
        cal.record(d);
        let q = cal.next_quantity();
        assert!(q >= last);
        last = q;
    }
    assert!(cal.done());
}

#[test]
fn scripted_backend_reports_zero_when_exhausted() {
    let mut backend = ScriptedBackend::new(vec![7]);
    let p = params();
    assert_eq!(backend.run(&p).duration_us, 7);
    assert_eq!(backend.run(&p).duration_us, 0);
    assert_eq!(backend.consumed(), 1);
}

#[test]
fn timer_reports_elapsed_microseconds() {
    let timer = TimerGuard::start();
    let first = timer.elapsed_us();
    let mut spin: u64 = 0;
    for i in 0..10_000u64 {
        spin = spin.wrapping_add(i);
    }
    assert!(spin > 0);
    let second = timer.elapsed_us();
    // a monotonic clock never runs backwards
    assert!(second >= first);
}
