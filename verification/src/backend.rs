//! The backend contract: what any renderable target offers the
//! orchestrator, and the plain data handed across that boundary.

use vstd::prelude::*;
use vstd::string::*;
use crate::buffer::Buffer;
use crate::catalog::{CompOpInfo, TestKind};
use crate::text::{push_char, push_decimal, spec_decimal};

verus! {

/// The parameters of one benchmark batch.  Owned by the orchestrator and
/// mutated in place through the test and size loops.
#[derive(Copy, Clone, Debug)]
pub struct BenchParams {
    pub screen_width: u32,
    pub screen_height: u32,
    pub test: TestKind,
    pub comp_op: CompOpInfo,
    pub shape_size: u32,
    pub quantity: u32,
    pub stroke_width: u32,
}

/// The result of one backend invocation: the wall-clock time the whole
/// batch took.
#[derive(Copy, Clone, Debug, PartialEq, Eq, Structural)]
pub struct BackendRun {
    pub duration_us: u64,
}

/// A renderable target the orchestrator can drive.
///
/// `run` executes exactly `params.quantity` drawing operations of the kind
/// `params.test` selects and reports the elapsed wall-clock time; before
/// each run the backend must rewind its workload generators to their
/// seeded start state, so batches of one quantity draw identical operation
/// sequences.  Nothing can be promised of the reported duration: it is a
/// clock reading.  `surface` exposes the most recent render output; the
/// orchestrator checks its well-formedness before reading it, so
/// implementations outside this crate stay untrusted.
pub trait Backend {
    /// A stable, unique, human-readable identifier; a table row label and
    /// a baseline lookup key.
    fn name(&self) -> &str;

    /// Runs one batch and reports its wall-clock duration.
    fn run(&mut self, params: &BenchParams) -> BackendRun;

    /// A read-only view of the most recent render output.
    fn surface(&self) -> &Buffer;
}

/// The display name of a rendering configuration: the single-threaded
/// one is marked `ST`, the others carry their thread count.
pub open spec fn spec_backend_label(threads: int) -> Seq<char> {
    if threads == 0 {
        "Vello CPU ST"@
    } else {
        "Vello CPU "@ + spec_decimal(threads) + seq!['T']
    }
}

/// Names the rendering configuration for a thread count; the name serves
/// as a table row label and a baseline lookup key, unique per count.
pub fn backend_label(threads: u16) -> (r: String)
    ensures
        r@ == spec_backend_label(threads as int),
{
    if threads == 0 {
        String::from_str("Vello CPU ST")
    } else {
        let mut name = String::from_str("Vello CPU ");
        push_decimal(&mut name, threads as u128);
        push_char(&mut name, 'T');
        assert(name@ =~= spec_backend_label(threads as int));
        name
    }
}

#[verifier::external_type_specification]
#[verifier::external_body]
pub struct ExInstant(std::time::Instant);

/// A started wall-clock timer.
pub struct TimerGuard(std::time::Instant);

impl TimerGuard {
    /// Starts a timer.
    ///
    /// Relies on `std::time::Instant::now`: an opaque monotonic timestamp;
    /// nothing further can be said of a clock reading.
    #[verifier::external_body]
    pub fn start() -> Self {
        TimerGuard(std::time::Instant::now())
    }

    /// Microseconds elapsed since the timer started.
    ///
    /// Relies on `std::time::Instant::elapsed`: the time since the
    /// timestamp was taken; its value depends on the clock, so nothing can
    /// be promised of it.
    #[verifier::external_body]
    pub fn elapsed_us(&self) -> u64 {
        self.0.elapsed().as_micros() as u64
    }
}

/// A backend that replays a scripted list of durations and renders
/// nothing.  It makes the calibration and orchestration paths fully
/// deterministic, which the crate's tests rely on.
pub struct ScriptedBackend {
    pub durations: Vec<u64>,
    pub cursor: usize,
    pub surface: Buffer,
}

impl ScriptedBackend {
    /// A scripted backend that reports the given durations in order and
    /// zero once they are exhausted.
    pub fn new(durations: Vec<u64>) -> (r: ScriptedBackend)
        ensures
            r.durations@ == durations@,
            r.cursor == 0,
            r.surface.wf(),
    {
        ScriptedBackend { durations, cursor: 0, surface: Buffer::new(1, 1) }
    }

    /// How many scripted durations have been consumed: the number of runs
    /// made, as long as the script has not run out.
    pub fn consumed(&self) -> (r: usize)
        ensures
            r == self.cursor,
    {
        self.cursor
    }
}

impl Backend for ScriptedBackend {
    fn name(&self) -> &str {
        "Scripted"
    }

    fn run(&mut self, _params: &BenchParams) -> BackendRun {
        if self.cursor < self.durations.len() {
            let d: u64 = self.durations[self.cursor];
            self.cursor = self.cursor + 1;
            BackendRun { duration_us: d }
        } else {
            BackendRun { duration_us: 0 }
        }
    }

    fn surface(&self) -> &Buffer {
        &self.surface
    }
}

} // verus!
