//! The calibration algorithm: turning noisy single wall-clock samples into
//! a stable throughput measurement.
//!
//! One `Calibration` value is the state of the algorithm for one
//! (test, size, backend) cell.  When no operation count is configured, an
//! auto-detect phase scales the batch geometrically until one batch takes
//! at least a fixed floor of wall-clock time (or the count passes one
//! million); the sampling phase then repeats batches at the settled count
//! and keeps the minimum duration, because scheduling noise only ever adds
//! latency.

use vstd::prelude::*;
use crate::backend::{Backend, BenchParams};

verus! {

/// The first batch size the auto-detect phase tries.
pub const INITIAL_QUANTITY: u32 = 25;

/// The wall-clock floor, in microseconds, at which a batch is considered
/// measurable.
pub const MIN_DURATION_US: u64 = 1000;

/// The calibration state of one benchmark cell.
#[derive(Copy, Clone, Debug, PartialEq, Eq, Structural)]
pub struct Calibration {
    /// The configured operation count; zero means auto-detect.
    pub configured: u32,
    /// How many sampling attempts are owed in total, at least one.
    pub required_runs: u32,
    /// The operation count the next batch will use.
    pub quantity: u32,
    /// The minimum duration observed so far.
    pub best: u64,
    /// How many attempts have counted towards `required_runs`.
    pub attempts: u32,
    /// Whether the operation count is settled (auto-detection is over).
    pub settled: bool,
}

/// The state calibration starts from.
pub open spec fn spec_cal_new(configured: u32, min_runs: u32) -> Calibration {
    Calibration {
        configured,
        required_runs: if min_runs >= 1 {
            min_runs
        } else {
            1u32
        },
        quantity: if configured == 0 {
            INITIAL_QUANTITY
        } else {
            configured
        },
        best: u64::MAX,
        attempts: 0u32,
        settled: configured != 0,
    }
}

/// The state after recording one observed batch duration.
///
/// While unsettled, the duration overwrites the best value; the state
/// settles when the duration reaches the floor or the count has passed one
/// million, and otherwise the count is scaled up by ten, three or two
/// depending on how short the batch was.  Once settled, the duration is
/// folded in by minimum and one attempt is counted.
pub open spec fn spec_cal_record(s: Calibration, d: u64) -> Calibration {
    if !s.settled {
        if d >= MIN_DURATION_US || s.quantity > 1000000 {
            Calibration {
                configured: s.configured,
                required_runs: s.required_runs,
                quantity: s.quantity,
                best: d,
                attempts: 1u32,
                settled: true,
            }
        } else {
            Calibration {
                configured: s.configured,
                required_runs: s.required_runs,
                quantity: if d < 100 {
                    (s.quantity * 10) as u32
                } else if d < 500 {
                    (s.quantity * 3) as u32
                } else {
                    (s.quantity * 2) as u32
                },
                best: d,
                attempts: s.attempts,
                settled: false,
            }
        }
    } else {
        Calibration {
            configured: s.configured,
            required_runs: s.required_runs,
            quantity: s.quantity,
            best: if d < s.best {
                d
            } else {
                s.best
            },
            attempts: (s.attempts + 1) as u32,
            settled: true,
        }
    }
}

/// Whether calibration is complete: the count is settled and enough
/// attempts have been made.
pub open spec fn spec_cal_done(s: Calibration) -> bool {
    s.settled && s.attempts >= s.required_runs
}

/// The state after feeding a whole sequence of durations, stopping at the
/// first completed state.
pub open spec fn spec_cal_fold(configured: u32, min_runs: u32, ds: Seq<u64>) -> Calibration
    decreases ds.len(),
{
    if ds.len() == 0 {
        spec_cal_new(configured, min_runs)
    } else {
        let prev = spec_cal_fold(configured, min_runs, ds.drop_last());
        if spec_cal_done(prev) {
            prev
        } else {
            spec_cal_record(prev, ds.last())
        }
    }
}

impl Calibration {
    /// Starts calibrating a cell.  A configured count of zero asks for
    /// auto-detection; `min_runs` below one counts as one.
    pub fn new(configured_quantity: u32, min_runs: u32) -> (r: Calibration)
        ensures
            r == spec_cal_new(configured_quantity, min_runs),
    {
        let required: u32 = if min_runs >= 1 {
            min_runs
        } else {
            1
        };
        let quantity: u32 = if configured_quantity == 0 {
            INITIAL_QUANTITY
        } else {
            configured_quantity
        };
        Calibration {
            configured: configured_quantity,
            required_runs: required,
            quantity,
            best: u64::MAX,
            attempts: 0,
            settled: configured_quantity != 0,
        }
    }

    /// The operation count the next batch should run with.
    pub fn next_quantity(&self) -> (r: u32)
        ensures
            r == self.quantity,
    {
        self.quantity
    }

    /// Whether calibration is complete.
    pub fn done(&self) -> (r: bool)
        ensures
            r == spec_cal_done(*self),
    {
        self.settled && self.attempts >= self.required_runs
    }

    /// Records one observed batch duration.  The operation count never
    /// decreases, and while auto-detecting it stays within the one-million
    /// escape hatch scaled by at most ten.
    pub fn record(&mut self, duration_us: u64)
        requires
            !spec_cal_done(*old(self)),
            !old(self).settled ==> old(self).quantity <= 10000000,
        ensures
            *final(self) == spec_cal_record(*old(self), duration_us),
            final(self).quantity >= old(self).quantity,
            !old(self).settled ==> final(self).quantity <= 10000000,
    {
        if !self.settled {
            if duration_us >= MIN_DURATION_US || self.quantity > 1000000 {
                self.best = duration_us;
                self.attempts = 1;
                self.settled = true;
            } else {
                self.best = duration_us;
                if duration_us < 100 {
                    self.quantity = self.quantity * 10;
                } else if duration_us < 500 {
                    self.quantity = self.quantity * 3;
                } else {
                    self.quantity = self.quantity * 2;
                }
            }
        } else {
            if duration_us < self.best {
                self.best = duration_us;
            }
            self.attempts = self.attempts + 1;
        }
    }

    /// The calibrated result: the best observed duration and the operation
    /// count it was measured with.
    pub fn result(&self) -> (r: (u64, u32))
        ensures
            r.0 == self.best,
            r.1 == self.quantity,
    {
        (self.best, self.quantity)
    }
}

/// With a configured operation count the count is never scaled, and
/// calibration is complete exactly when the owed number of sampling
/// attempts has been made: feeding `k` durations counts `k` attempts up to
/// the owed number, so exactly `max(min_runs, 1)` batches are timed.
pub proof fn lemma_fixed_quantity_exact_runs(configured: u32, min_runs: u32, ds: Seq<u64>)
    requires
        configured > 0,
    ensures
        spec_cal_fold(configured, min_runs, ds).quantity == configured,
        spec_cal_fold(configured, min_runs, ds).settled,
        spec_cal_fold(configured, min_runs, ds).required_runs == spec_cal_new(
            configured,
            min_runs,
        ).required_runs,
        spec_cal_fold(configured, min_runs, ds).attempts == if ds.len()
            >= spec_cal_new(configured, min_runs).required_runs {
            spec_cal_new(configured, min_runs).required_runs as int
        } else {
            ds.len() as int
        },
        spec_cal_done(spec_cal_fold(configured, min_runs, ds)) <==> ds.len() >= spec_cal_new(
            configured,
            min_runs,
        ).required_runs,
    decreases ds.len(),
{
    if ds.len() > 0 {
        lemma_fixed_quantity_exact_runs(configured, min_runs, ds.drop_last());
    }
}

/// During auto-detection the operation count is monotonically
/// non-decreasing across the geometric-scaling steps: every prefix of the
/// observed durations leaves the count at most where the whole sequence
/// leaves it.
pub proof fn lemma_quantity_monotone(configured: u32, min_runs: u32, ds: Seq<u64>, k: int)
    requires
        0 <= k <= ds.len(),
    ensures
        spec_cal_fold(configured, min_runs, ds.take(k)).quantity <= spec_cal_fold(
            configured,
            min_runs,
            ds,
        ).quantity,
    decreases ds.len() - k,
{
    if k < ds.len() {
        lemma_quantity_monotone(configured, min_runs, ds, k + 1);
        assert(ds.take(k + 1).drop_last() =~= ds.take(k));
        assert(ds.take(ds.len() as int) =~= ds);
    } else {
        assert(ds.take(k) =~= ds);
    }
}

/// Measures one cell: runs the backend until calibration completes and
/// returns the best duration with the operation count used.  With a
/// configured count the count is returned unchanged; with auto-detection
/// the returned count stays within the initial value and the escape
/// hatch's ceiling, and the loop provably terminates.  Only
/// `params.quantity` is touched, and it ends at the returned count.
pub fn run_single_test<B: Backend>(
    backend: &mut B,
    params: &mut BenchParams,
    configured_quantity: u32,
    min_runs: u32,
) -> (r: (u64, u32))
    ensures
        configured_quantity > 0 ==> r.1 == configured_quantity,
        configured_quantity == 0 ==> INITIAL_QUANTITY <= r.1 <= 10000000,
        final(params).quantity == r.1,
        final(params).screen_width == old(params).screen_width,
        final(params).screen_height == old(params).screen_height,
        final(params).test == old(params).test,
        final(params).comp_op.name@ == old(params).comp_op.name@,
        final(params).comp_op.mode == old(params).comp_op.mode,
        final(params).shape_size == old(params).shape_size,
        final(params).stroke_width == old(params).stroke_width,
        exists|ds: Seq<u64>|
            {
                let s = #[trigger] spec_cal_fold(configured_quantity, min_runs, ds);
                spec_cal_done(s) && r.0 == s.best && r.1 == s.quantity
            },
{
    let mut cal: Calibration = Calibration::new(configured_quantity, min_runs);
    let ghost mut ds: Seq<u64> = Seq::empty();
    while !cal.done()
        invariant
            cal == spec_cal_fold(configured_quantity, min_runs, ds),
            configured_quantity > 0 ==> cal.settled && cal.quantity == configured_quantity,
            configured_quantity == 0 ==> INITIAL_QUANTITY <= cal.quantity <= 10000000,
            params.screen_width == old(params).screen_width,
            params.screen_height == old(params).screen_height,
            params.test == old(params).test,
            params.comp_op.name@ == old(params).comp_op.name@,
            params.comp_op.mode == old(params).comp_op.mode,
            params.shape_size == old(params).shape_size,
            params.stroke_width == old(params).stroke_width,
        decreases
                (if cal.settled {
                    0int
                } else {
                    1int
                }),
                (if cal.settled {
                    0int
                } else {
                    10000001int - cal.quantity
                }),
                cal.required_runs - cal.attempts,
    {
        params.quantity = cal.next_quantity();
        let run = backend.run(params);
        let ghost prev = ds;
        cal.record(run.duration_us);
        proof {
            ds = ds.push(run.duration_us);
            assert(ds.drop_last() =~= prev);
        }
    }
    let r: (u64, u32) = cal.result();
    params.quantity = cal.next_quantity();
    r
}

} // verus!
