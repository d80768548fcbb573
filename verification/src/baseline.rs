//! The baseline comparator: reading prior throughput values back, summing
//! them per size column, and classifying the delta of a current value
//! against its baseline.
//!
//! Baseline values are fixed-point throughput numbers (four decimal
//! places), parsed from the strings a result document holds.  Comparison
//! errors are per-cell annotations and never abort a run.

use vstd::prelude::*;
use vstd::string::*;
use crate::config::ConfigError;
use crate::format::spec_round_div;
use crate::text::{
    push_char, push_decimal, spec_all_digits, spec_decimal, spec_digit_char, spec_digits_value,
    spec_scan_to, spec_trim, str_chars, scan_to, trim_range, parse_digits,
};

verus! {

/// The largest baseline value read back, in fixed-point units: ten
/// thousand billion operations per millisecond, far beyond any
/// measurement, and small enough that a whole column of values sums
/// without overflow.
pub const BASELINE_VALUE_MAX: u64 = 10_000_000_000_000_000;

/// The fixed-point value of a fraction part read from a decimal string:
/// its first four digits, padded with zeros on the right.
pub open spec fn spec_frac_e4(fp: Seq<char>) -> int {
    if fp.len() >= 4 {
        spec_digits_value(fp.take(4))
    } else if fp.len() == 3 {
        spec_digits_value(fp) * 10
    } else if fp.len() == 2 {
        spec_digits_value(fp) * 100
    } else {
        spec_digits_value(fp) * 1000
    }
}

/// How a throughput string is read back: digits, optionally a point and
/// more digits, denoting a fixed-point value of at most
/// `BASELINE_VALUE_MAX`; fraction digits beyond the fourth are dropped.
/// Anything else reads as nothing.
pub open spec fn spec_value_e4(t: Seq<char>) -> Option<u64> {
    let dot = spec_scan_to(t, 0, '.');
    let ip = t.take(dot);
    if dot == t.len() {
        if spec_all_digits(ip) && spec_digits_value(ip) * 10000 <= BASELINE_VALUE_MAX {
            Some((spec_digits_value(ip) * 10000) as u64)
        } else {
            None
        }
    } else {
        let fp = t.subrange(dot + 1, t.len() as int);
        if spec_all_digits(ip) && spec_all_digits(fp) && spec_digits_value(ip) * 10000
            + spec_frac_e4(fp) <= BASELINE_VALUE_MAX {
            Some((spec_digits_value(ip) * 10000 + spec_frac_e4(fp)) as u64)
        } else {
            None
        }
    }
}

/// Reads a throughput string back as a fixed-point value.
pub fn parse_value_e4(s: &str) -> (r: Option<u64>)
    ensures
        r == spec_value_e4(s@),
        r is Some ==> r->Some_0 <= BASELINE_VALUE_MAX,
{
    let chars: Vec<char> = str_chars(s);
    let len: usize = chars.len();
    let dot: usize = scan_to(&chars, 0, '.');
    let ghost ip = s@.take(dot as int);
    assert(ip =~= chars@.subrange(0, dot as int));
    let ip_value: u64 = match parse_digits(&chars, 0, dot, 1_000_000_000_000) {
        Some(v) => v,
        None => {
            proof {
                if spec_all_digits(ip) {
                    assert(spec_digits_value(ip) > 1_000_000_000_000);
                    if dot < len {
                        let fp = s@.subrange(dot + 1, s@.len() as int);
                        if spec_all_digits(fp) {
                            lemma_frac_e4_bounds(fp);
                        }
                    }
                }
            }
            return None;
        },
    };
    if dot == len {
        Some(ip_value * 10000)
    } else {
        let ghost fp = s@.subrange(dot + 1, s@.len() as int);
        let frac_end: usize = if len - (dot + 1) >= 4 {
            dot + 5
        } else {
            len
        };
        proof {
            let head = chars@.subrange(dot + 1, frac_end as int);
            if fp.len() >= 4 {
                assert(head =~= fp.take(4));
            } else {
                assert(head =~= fp);
            }
        }
        let frac_digits: u64 = match parse_digits(&chars, dot + 1, frac_end, 9999) {
            Some(v) => v,
            None => {
                proof {
                    let head = chars@.subrange(dot + 1, frac_end as int);
                    if spec_all_digits(fp) {
                        lemma_frac_e4_bounds(fp);
                        if fp.len() >= 4 {
                            assert(spec_all_digits(head));
                        } else {
                            assert(spec_all_digits(head));
                        }
                        assert(false);
                    }
                }
                return None;
            },
        };
        // every character after the fourth fraction digit must still be a
        // digit, even though its value is dropped
        let mut k: usize = frac_end;
        while k < len
            invariant
                dot + 1 <= frac_end <= k <= len,
                dot < len,
                len == chars@.len(),
                chars@ == s@,
                fp == s@.subrange(dot + 1, s@.len() as int),
                ip == s@.take(dot as int),
                dot == spec_scan_to(s@, 0, '.'),
                forall|j: int|
                    frac_end <= j < k ==> crate::text::spec_is_digit(#[trigger] chars@[j]),
            decreases len - k,
        {
            let c: char = chars[k];
            let u: u32 = c as u32;
            if u < 48 || u > 57 {
                proof {
                    assert(fp[k - (dot + 1)] == chars@[k as int]);
                    assert(!spec_all_digits(fp));
                }
                return None;
            }
            k = k + 1;
        }
        let scale: u64 = if len - (dot + 1) >= 4 {
            1
        } else if len - (dot + 1) == 3 {
            10
        } else if len - (dot + 1) == 2 {
            100
        } else {
            1000
        };
        proof {
            let head = chars@.subrange(dot + 1, frac_end as int);
            assert(spec_all_digits(fp)) by {
                assert forall|j: int| 0 <= j < fp.len() implies crate::text::spec_is_digit(
                    #[trigger] fp[j],
                ) by {
                    assert(fp[j] == chars@[dot + 1 + j]);
                    if dot + 1 + j < frac_end {
                        assert(head[j] == fp[j]);
                    }
                }
            }
            lemma_frac_e4_bounds(fp);
            assert(frac_digits * scale == spec_frac_e4(fp));
        }
        let total: u64 = ip_value * 10000 + frac_digits * scale;
        if total > BASELINE_VALUE_MAX {
            None
        } else {
            Some(total)
        }
    }
}

/// A run of up to four digits denotes at most 9999, so the fraction part
/// of a fixed-point value is between zero and 9999.
proof fn lemma_digits_value_small(s: Seq<char>)
    requires
        forall|i: int| 0 <= i < s.len() ==> crate::text::spec_is_digit(#[trigger] s[i]),
        s.len() <= 4,
    ensures
        0 <= spec_digits_value(s) < crate::format::spec_pow10(s.len() as int),
    decreases s.len(),
{
    if s.len() > 0 {
        lemma_digits_value_small(s.drop_last());
    }
}

/// The fraction contribution of a digit run is between 0 and 9999.
proof fn lemma_frac_e4_bounds(fp: Seq<char>)
    requires
        spec_all_digits(fp),
    ensures
        0 <= spec_frac_e4(fp) <= 9999,
        fp.len() >= 4 ==> 0 <= spec_digits_value(fp.take(4)) <= 9999,
        fp.len() < 4 ==> 0 <= spec_digits_value(fp) <= 9999,
{
    if fp.len() >= 4 {
        assert(forall|i: int|
            0 <= i < fp.take(4).len() ==> crate::text::spec_is_digit(#[trigger] fp.take(4)[i]));
        lemma_digits_value_small(fp.take(4));
    } else {
        lemma_digits_value_small(fp);
    }
}

/// Reads the leading number of a size label such as a width, an `'x'` and
/// a height: everything before the first `'x'` (or the whole label),
/// trimmed, as an unsigned number.
pub open spec fn spec_size_label_value(label: Seq<char>) -> Option<u32> {
    let head = spec_trim(label.take(spec_scan_to(label, 0, 'x')));
    if spec_all_digits(head) && spec_digits_value(head) <= u32::MAX {
        Some(spec_digits_value(head) as u32)
    } else {
        None
    }
}

/// Parses a size label from a baseline document; a label without a
/// leading number is a configuration error carrying the label.
pub fn parse_size_label(label: &str) -> (r: Result<u32, ConfigError>)
    ensures
        match spec_size_label_value(label@) {
            Some(v) => r is Ok && r->Ok_0 == v,
            None => r is Err && r->Err_0 is InvalidSizeLabel && r->Err_0->InvalidSizeLabel_0@
                == label@,
        },
{
    let chars: Vec<char> = str_chars(label);
    let e: usize = scan_to(&chars, 0, 'x');
    let (lo, hi): (usize, usize) = trim_range(&chars, 0, e);
    match parse_digits(&chars, lo, hi, 0xFFFF_FFFF) {
        Some(v) => Ok(v as u32),
        None => Err(ConfigError::InvalidSizeLabel(label.to_owned())),
    }
}

/// The mathematical state of a baseline accumulator.
pub struct SumModel {
    pub total: int,
    pub has_value: bool,
    pub error: Option<Seq<char>>,
}

/// A per-cell comparison outcome, as a mathematical value.
pub open spec fn spec_entry_model(e: Result<u64, String>) -> Result<int, Seq<char>> {
    match e {
        Result::Ok(v) => Result::Ok(v as int),
        Result::Err(s) => Result::Err(s@),
    }
}

/// How one outcome folds into the accumulator: successes add up until the
/// first error arrives; from then on the state never changes again.
pub open spec fn spec_sum_push(m: SumModel, entry: Result<int, Seq<char>>) -> SumModel {
    if m.error is Some {
        m
    } else {
        match entry {
            Result::Ok(v) => SumModel { total: m.total + v, has_value: true, error: m.error },
            Result::Err(e) => SumModel {
                total: m.total,
                has_value: m.has_value,
                error: Some(e),
            },
        }
    }
}

/// What the accumulator finishes as: its first error if one arrived, the
/// exact sum if at least one success arrived, and a missing-value error
/// otherwise.
pub open spec fn spec_sum_finish(m: SumModel) -> Result<int, Seq<char>> {
    match m.error {
        Option::Some(e) => Result::Err(e),
        Option::None => if m.has_value {
            Result::Ok(m.total)
        } else {
            Result::Err("missing baseline value"@)
        },
    }
}

/// A running sum of per-cell baseline values with sticky errors: once an
/// error is recorded, later successes are ignored and the aggregate
/// finishes as that first error.
pub struct BaselineSum {
    total: u64,
    has_value: bool,
    error: Option<String>,
}

impl View for BaselineSum {
    type V = SumModel;

    closed spec fn view(&self) -> SumModel {
        SumModel {
            total: self.total as int,
            has_value: self.has_value,
            error: match self.error {
                Option::Some(ref e) => Option::Some(e@),
                Option::None => Option::None,
            },
        }
    }
}

impl Default for BaselineSum {
    /// An empty accumulator: no value yet and no error.
    fn default() -> (r: Self)
        ensures
            r@ == (SumModel { total: 0, has_value: false, error: Option::None }),
    {
        BaselineSum { total: 0, has_value: false, error: None }
    }
}

impl BaselineSum {
    /// The sum accumulated so far.
    pub fn total(&self) -> (r: u64)
        ensures
            r == self@.total,
    {
        self.total
    }

    /// Folds one per-cell outcome in.
    pub fn push(&mut self, entry: Result<u64, String>)
        requires
            old(self)@.error is None && entry is Ok ==> old(self)@.total + entry->Ok_0
                <= u64::MAX,
        ensures
            final(self)@ == spec_sum_push(old(self)@, spec_entry_model(entry)),
    {
        match entry {
            Ok(value) => {
                if self.error.is_none() {
                    self.total = self.total + value;
                    self.has_value = true;
                }
            },
            Err(err) => {
                if self.error.is_none() {
                    self.error = Some(err);
                }
            },
        }
    }

    /// Finishes the aggregate.
    pub fn finish(self) -> (r: Result<u64, String>)
        ensures
            spec_entry_model(r) == spec_sum_finish(self@),
    {
        match self.error {
            Some(err) => Err(err),
            None => {
                if self.has_value {
                    Ok(self.total)
                } else {
                    Err(String::from_str("missing baseline value"))
                }
            },
        }
    }
}

/// Errors are sticky: pushing an error and then a success finishes as
/// that error, whatever the success was.
pub proof fn lemma_sum_error_sticky(m: SumModel, e: Seq<char>, v: int)
    requires
        m.error is None,
    ensures
        spec_sum_finish(spec_sum_push(spec_sum_push(m, Result::Err(e)), Result::Ok(v)))
            == Result::<int, Seq<char>>::Err(e),
{
}

/// The sum of a sequence of values.
pub open spec fn spec_seq_sum(vs: Seq<int>) -> int
    decreases vs.len(),
{
    if vs.len() == 0 {
        0
    } else {
        spec_seq_sum(vs.drop_last()) + vs.last()
    }
}

/// The accumulator after pushing a whole sequence of successes.
pub open spec fn spec_sum_push_all(m: SumModel, vs: Seq<int>) -> SumModel
    decreases vs.len(),
{
    if vs.len() == 0 {
        m
    } else {
        spec_sum_push(spec_sum_push_all(m, vs.drop_last()), Result::Ok(vs.last()))
    }
}

/// Pushing only successes sums them exactly: an error-free accumulator
/// stays error-free and finishes as the exact sum of everything pushed.
pub proof fn lemma_sum_of_successes(m: SumModel, vs: Seq<int>)
    requires
        m.error is None,
    ensures
        spec_sum_push_all(m, vs).error is None,
        spec_sum_push_all(m, vs).total == m.total + spec_seq_sum(vs),
        vs.len() > 0 ==> spec_sum_push_all(m, vs).has_value,
        vs.len() > 0 || m.has_value ==> spec_sum_finish(spec_sum_push_all(m, vs))
            == Result::<int, Seq<char>>::Ok(m.total + spec_seq_sum(vs)),
    decreases vs.len(),
{
    if vs.len() > 0 {
        lemma_sum_of_successes(m, vs.drop_last());
    }
}

/// How a current value relates to its baseline.
#[derive(Copy, Clone, Debug, PartialEq, Eq, Structural)]
pub enum DeltaClass {
    /// At least three percent above the baseline (inclusive).
    Improvement,
    /// At least three percent below the baseline (inclusive).
    Regression,
    /// Within three percent of the baseline.
    Noise,
}

/// The classification of `current` against `baseline`: the percentage
/// delta `(current - baseline) / baseline * 100` classified with an
/// inclusive boundary at plus and minus three percent.
pub open spec fn spec_classify(current: int, baseline: int) -> DeltaClass {
    if 100 * (current - baseline) >= 3 * baseline {
        DeltaClass::Improvement
    } else if 100 * (current - baseline) <= -3 * baseline {
        DeltaClass::Regression
    } else {
        DeltaClass::Noise
    }
}

/// Classifies a measured value against a non-zero baseline value.
pub fn classify_delta(current: u64, baseline: u64) -> (r: DeltaClass)
    requires
        baseline > 0,
    ensures
        r == spec_classify(current as int, baseline as int),
{
    if current >= baseline {
        let diff: u128 = (current - baseline) as u128;
        if diff * 100 >= 3 * (baseline as u128) {
            DeltaClass::Improvement
        } else {
            DeltaClass::Noise
        }
    } else {
        let diff: u128 = (baseline - current) as u128;
        if diff * 100 >= 3 * (baseline as u128) {
            DeltaClass::Regression
        } else {
            DeltaClass::Noise
        }
    }
}

/// The delta annotation text: a sign, the percentage delta rounded half
/// up to one decimal place, and a percent mark.
pub open spec fn spec_delta_text(current: int, baseline: int) -> Seq<char> {
    let mag = if current >= baseline {
        current - baseline
    } else {
        baseline - current
    };
    let scaled = spec_round_div(mag * 1000, baseline);
    (if current >= baseline {
        seq!['+']
    } else {
        seq!['-']
    }) + spec_decimal(scaled / 10) + seq!['.'] + seq![spec_digit_char(scaled % 10)] + seq!['%']
}

/// Formats the percentage delta of a value against a non-zero baseline,
/// signed and with one decimal place.
pub fn format_delta_text(current: u64, baseline: u64) -> (r: String)
    requires
        baseline > 0,
    ensures
        r@ == spec_delta_text(current as int, baseline as int),
{
    let mag: u64 = if current >= baseline {
        current - baseline
    } else {
        baseline - current
    };
    let num: u128 = (mag as u128) * 1000;
    let b: u128 = baseline as u128;
    let q: u128 = num / b;
    let rem: u128 = num % b;
    let scaled: u128 = if rem * 2 >= b {
        q + 1
    } else {
        q
    };
    assert(scaled == spec_round_div(mag as int * 1000, baseline as int));
    let mut out = String::new();
    if current >= baseline {
        push_char(&mut out, '+');
    } else {
        push_char(&mut out, '-');
    }
    push_decimal(&mut out, scaled / 10);
    push_char(&mut out, '.');
    let last_digit: u64 = (scaled % 10) as u64;
    push_char(&mut out, crate::text::digit_char(last_digit));
    push_char(&mut out, '%');
    assert(out@ =~= spec_delta_text(current as int, baseline as int));
    out
}

/// One indexed baseline value, as a mathematical value.
pub struct EntryModel {
    pub backend: Seq<char>,
    pub test: Seq<char>,
    pub size: u32,
    pub value: u64,
}

/// One indexed baseline value: the cell key and the recorded throughput.
pub struct BaselineEntry {
    pub backend: String,
    pub test: String,
    pub size: u32,
    pub value: u64,
}

impl View for BaselineEntry {
    type V = EntryModel;

    open spec fn view(&self) -> EntryModel {
        EntryModel { backend: self.backend@, test: self.test@, size: self.size, value: self.value }
    }
}

/// One record of a loaded baseline document.
pub struct BaselineRecord {
    pub test_name: String,
    pub rcpms: Vec<String>,
}

/// One backend run of a loaded baseline document.
pub struct BaselineRun {
    pub name: String,
    pub records: Vec<BaselineRecord>,
}

/// The entries one record contributes, from its column `i` on: every
/// parsable value that has a ladder position becomes an entry.
pub open spec fn spec_record_entries(
    run_name: Seq<char>,
    rec: BaselineRecord,
    sizes: Seq<u32>,
    i: int,
) -> Seq<EntryModel>
    decreases rec.rcpms@.len() - i,
{
    if i < 0 || i >= rec.rcpms@.len() {
        Seq::<EntryModel>::empty()
    } else {
        let rest = spec_record_entries(run_name, rec, sizes, i + 1);
        if i < sizes.len() && spec_value_e4(rec.rcpms@[i]@) is Some {
            seq![
                EntryModel {
                    backend: run_name,
                    test: rec.test_name@,
                    size: sizes[i],
                    value: spec_value_e4(rec.rcpms@[i]@)->Some_0,
                },
            ] + rest
        } else {
            rest
        }
    }
}

/// The entries the records of one run contribute, from record `j` on.
pub open spec fn spec_run_entries(
    run_name: Seq<char>,
    records: Seq<BaselineRecord>,
    sizes: Seq<u32>,
    j: int,
) -> Seq<EntryModel>
    decreases records.len() - j,
{
    if j < 0 || j >= records.len() {
        Seq::<EntryModel>::empty()
    } else {
        spec_record_entries(run_name, records[j], sizes, 0) + spec_run_entries(
            run_name,
            records,
            sizes,
            j + 1,
        )
    }
}

/// The entries a whole document contributes, from run `k` on.
pub open spec fn spec_runs_entries(runs: Seq<BaselineRun>, sizes: Seq<u32>, k: int)
    -> Seq<EntryModel>
    decreases runs.len() - k,
{
    if k < 0 || k >= runs.len() {
        Seq::<EntryModel>::empty()
    } else {
        spec_run_entries(runs[k].name@, runs[k].records@, sizes, 0) + spec_runs_entries(
            runs,
            sizes,
            k + 1,
        )
    }
}

/// The ladder the document declares: its size labels parsed in order; the
/// first bad label is the error.
pub open spec fn spec_labels_fold(labels: Seq<String>) -> Result<Seq<u32>, Seq<char>>
    decreases labels.len(),
{
    if labels.len() == 0 {
        Result::Ok(Seq::<u32>::empty())
    } else {
        match spec_size_label_value(labels[0]@) {
            Option::Some(v) => match spec_labels_fold(labels.drop_first()) {
                Result::Ok(rest) => Result::Ok(seq![v] + rest),
                Result::Err(e) => Result::Err(e),
            },
            Option::None => Result::Err(labels[0]@),
        }
    }
}

/// The most recently inserted value for a cell key, if any: entries
/// inserted later shadow earlier ones with the same key, as rebuilding an
/// index by insertion would.
pub open spec fn spec_lookup(
    entries: Seq<EntryModel>,
    backend: Seq<char>,
    test: Seq<char>,
    size: u32,
) -> Option<u64>
    decreases entries.len(),
{
    if entries.len() == 0 {
        Option::None
    } else if entries.last().backend == backend && entries.last().test == test
        && entries.last().size == size {
        Option::Some(entries.last().value)
    } else {
        spec_lookup(entries.drop_last(), backend, test, size)
    }
}

/// The per-cell comparison outcome a lookup yields: the stored value, or
/// the missing-value annotation.
pub open spec fn spec_lookup_entry(
    entries: Seq<EntryModel>,
    backend: Seq<char>,
    test: Seq<char>,
    size: u32,
) -> Result<int, Seq<char>> {
    match spec_lookup(entries, backend, test, size) {
        Option::Some(v) => Result::Ok(v as int),
        Option::None => Result::Err("missing baseline value"@),
    }
}

/// A previously produced result document, indexed by
/// (backend name, test name, size).
pub struct Baseline {
    pub entries: Vec<BaselineEntry>,
}

impl Baseline {
    /// Every indexed value stays within the parser's cap.
    pub open spec fn wf(&self) -> bool {
        forall|i: int|
            0 <= i < self.entries@.len() ==> (#[trigger] self.entries@[i]).value
                <= BASELINE_VALUE_MAX
    }

    /// Indexes a loaded document: the declared ladder is parsed first (a
    /// bad label is fatal), then every parsable record value that has a
    /// ladder position becomes an entry, in document order.
    pub fn build(size_labels: &Vec<String>, runs: &Vec<BaselineRun>) -> (r: Result<
        Baseline,
        ConfigError,
    >)
        ensures
            match spec_labels_fold(size_labels@) {
                Result::Ok(sizes) => r is Ok && r->Ok_0.entries@.map_values(
                    |e: BaselineEntry| e@,
                ) == spec_runs_entries(runs@, sizes, 0) && r->Ok_0.wf(),
                Result::Err(label) => r is Err && r->Err_0 is InvalidSizeLabel
                    && r->Err_0->InvalidSizeLabel_0@ == label,
            },
    {
        let ghost to_model = |e: BaselineEntry| e@;
        let mut sizes: Vec<u32> = Vec::new();
        proof {
            assert(size_labels@.skip(0) =~= size_labels@);
            if spec_labels_fold(size_labels@) is Ok {
                let rest = spec_labels_fold(size_labels@)->Ok_0;
                assert(Seq::<u32>::empty() + rest =~= rest);
            }
        }
        let mut li: usize = 0;
        while li < size_labels.len()
            invariant
                li <= size_labels@.len(),
                spec_labels_fold(size_labels@) == (match spec_labels_fold(
                    size_labels@.skip(li as int),
                ) {
                    Result::Ok(rest) => Result::<Seq<u32>, Seq<char>>::Ok(sizes@ + rest),
                    Result::Err(e) => Result::<Seq<u32>, Seq<char>>::Err(e),
                }),
            decreases size_labels@.len() - li,
        {
            let ghost rem = size_labels@.skip(li as int);
            proof {
                assert(rem[0] == size_labels@[li as int]);
                assert(rem.drop_first() =~= size_labels@.skip(li + 1));
            }
            match parse_size_label(size_labels[li].as_str()) {
                Ok(v) => {
                    let ghost old_sizes = sizes@;
                    sizes.push(v);
                    proof {
                        if spec_labels_fold(rem.drop_first()) is Ok {
                            let rest = spec_labels_fold(rem.drop_first())->Ok_0;
                            assert(old_sizes + (seq![v] + rest) =~= sizes@ + rest);
                        }
                    }
                },
                Err(e) => {
                    return Err(e);
                },
            }
            li = li + 1;
        }
        proof {
            assert(size_labels@.skip(size_labels@.len() as int) =~= Seq::<String>::empty());
            assert(sizes@ + Seq::<u32>::empty() =~= sizes@);
        }

        let mut entries: Vec<BaselineEntry> = Vec::new();
        let mut k: usize = 0;
        while k < runs.len()
            invariant
                k <= runs@.len(),
                to_model == (|e: BaselineEntry| e@),
                forall|i: int|
                    0 <= i < entries@.len() ==> (#[trigger] entries@[i]).value
                        <= BASELINE_VALUE_MAX,
                spec_runs_entries(runs@, sizes@, 0) == entries@.map_values(to_model)
                    + spec_runs_entries(runs@, sizes@, k as int),
            decreases runs@.len() - k,
        {
            let run = &runs[k];
            let mut j: usize = 0;
            while j < run.records.len()
                invariant
                    k < runs@.len(),
                    j <= run.records@.len(),
                    run == &runs@[k as int],
                    to_model == (|e: BaselineEntry| e@),
                    forall|i: int|
                        0 <= i < entries@.len() ==> (#[trigger] entries@[i]).value
                            <= BASELINE_VALUE_MAX,
                    spec_runs_entries(runs@, sizes@, 0) == entries@.map_values(to_model)
                        + spec_run_entries(run.name@, run.records@, sizes@, j as int)
                        + spec_runs_entries(runs@, sizes@, k + 1),
                decreases run.records@.len() - j,
            {
                let rec = &run.records[j];
                let mut i: usize = 0;
                while i < rec.rcpms.len()
                    invariant
                        k < runs@.len(),
                        j < run.records@.len(),
                        i <= rec.rcpms@.len(),
                        run == &runs@[k as int],
                        rec == &run.records@[j as int],
                        to_model == (|e: BaselineEntry| e@),
                        forall|n: int|
                            0 <= n < entries@.len() ==> (#[trigger] entries@[n]).value
                                <= BASELINE_VALUE_MAX,
                        spec_runs_entries(runs@, sizes@, 0) == entries@.map_values(to_model)
                            + spec_record_entries(run.name@, *rec, sizes@, i as int)
                            + spec_run_entries(run.name@, run.records@, sizes@, j + 1)
                            + spec_runs_entries(runs@, sizes@, k + 1),
                    decreases rec.rcpms@.len() - i,
                {
                    if i < sizes.len() {
                        match parse_value_e4(rec.rcpms[i].as_str()) {
                            Some(value) => {
                                let ghost old_entries = entries@;
                                let entry = BaselineEntry {
                                    backend: run.name.clone(),
                                    test: rec.test_name.clone(),
                                    size: sizes[i],
                                    value,
                                };
                                entries.push(entry);
                                proof {
                                    assert(entries@.map_values(to_model) =~= old_entries
                                        .map_values(to_model).push(entry@));
                                    assert(old_entries.map_values(to_model) + (seq![entry@]
                                        + spec_record_entries(run.name@, *rec, sizes@, i + 1))
                                        =~= entries@.map_values(to_model)
                                        + spec_record_entries(run.name@, *rec, sizes@, i + 1));
                                }
                            },
                            None => {
                            },
                        }
                    }
                    i = i + 1;
                }
                proof {
                    assert(spec_record_entries(run.name@, *rec, sizes@, rec.rcpms@.len() as int)
                        =~= Seq::<EntryModel>::empty());
                    assert(entries@.map_values(to_model) + Seq::<EntryModel>::empty()
                        + spec_run_entries(run.name@, run.records@, sizes@, j + 1)
                        + spec_runs_entries(runs@, sizes@, k + 1) =~= entries@.map_values(
                        to_model,
                    ) + spec_run_entries(run.name@, run.records@, sizes@, j + 1)
                        + spec_runs_entries(runs@, sizes@, k + 1));
                }
                j = j + 1;
            }
            proof {
                assert(spec_run_entries(run.name@, run.records@, sizes@, run.records@.len() as int)
                    =~= Seq::<EntryModel>::empty());
                assert(entries@.map_values(to_model) + Seq::<EntryModel>::empty()
                    + spec_runs_entries(runs@, sizes@, k + 1) =~= entries@.map_values(to_model)
                    + spec_runs_entries(runs@, sizes@, k + 1));
            }
            k = k + 1;
        }
        proof {
            assert(spec_runs_entries(runs@, sizes@, runs@.len() as int) =~= Seq::<
                EntryModel,
            >::empty());
            assert(entries@.map_values(to_model) + Seq::<EntryModel>::empty() =~= entries@
                .map_values(to_model));
        }
        Ok(Baseline { entries })
    }

    /// Looks a cell up by backend name, test name and size.  A missing
    /// entry is a per-cell annotation, not a hard error.
    pub fn lookup(&self, backend: &str, test: &str, size: u32) -> (r: Result<u64, String>)
        ensures
            match spec_lookup(self.entries@.map_values(|e: BaselineEntry| e@), backend@, test@,
                size,
            ) {
                Option::Some(v) => r is Ok && r->Ok_0 == v,
                Option::None => r is Err && r->Err_0@ == "missing baseline value"@,
            },
            spec_entry_model(r) == spec_lookup_entry(
                self.entries@.map_values(|e: BaselineEntry| e@),
                backend@,
                test@,
                size,
            ),
            self.wf() && r is Ok ==> r->Ok_0 <= BASELINE_VALUE_MAX,
    {
        let ghost to_model = |e: BaselineEntry| e@;
        let ghost models = self.entries@.map_values(to_model);
        let bname: String = backend.to_owned();
        let tname: String = test.to_owned();
        proof {
            assert(models.take(self.entries@.len() as int) =~= models);
        }
        let mut i: usize = self.entries.len();
        while i > 0
            invariant
                i <= self.entries@.len(),
                to_model == (|e: BaselineEntry| e@),
                models == self.entries@.map_values(to_model),
                bname@ == backend@,
                tname@ == test@,
                spec_lookup(models, backend@, test@, size) == spec_lookup(
                    models.take(i as int),
                    backend@,
                    test@,
                    size,
                ),
            decreases i,
        {
            i = i - 1;
            let e = &self.entries[i];
            proof {
                assert(models.take(i + 1).last() == models[i as int]);
                assert(models.take(i + 1).drop_last() =~= models.take(i as int));
            }
            if e.size == size && e.backend == bname && e.test == tname {
                return Ok(e.value);
            }
        }
        proof {
            assert(models.take(0) =~= Seq::<EntryModel>::empty());
        }
        Err(String::from_str("missing baseline value"))
    }
}

/// The green escape wrapping of a text: how an improvement is marked.
pub open spec fn spec_green(s: Seq<char>) -> Seq<char> {
    "\u{1b}[32m"@ + s + "\u{1b}[39m"@
}

/// The red escape wrapping of a text: how a regression or an error is
/// marked.
pub open spec fn spec_red(s: Seq<char>) -> Seq<char> {
    "\u{1b}[31m"@ + s + "\u{1b}[39m"@
}

/// The bright-black escape wrapping of a text: how noise is marked.
pub open spec fn spec_dim(s: Seq<char>) -> Seq<char> {
    "\u{1b}[90m"@ + s + "\u{1b}[39m"@
}

/// Relies on `owo_colors::OwoColorize::green` for `&str`: its display
/// form is the green foreground escape, the text, and the
/// default-foreground escape.
#[verifier::external_body]
fn paint_green(s: &str) -> (r: String)
    ensures
        r@ == spec_green(s@),
{
    format!("{}", owo_colors::OwoColorize::green(&s))
}

/// Relies on `owo_colors::OwoColorize::red` for `&str`: its display form
/// is the red foreground escape, the text, and the default-foreground
/// escape.
#[verifier::external_body]
fn paint_red(s: &str) -> (r: String)
    ensures
        r@ == spec_red(s@),
{
    format!("{}", owo_colors::OwoColorize::red(&s))
}

/// Relies on `owo_colors::OwoColorize::bright_black` for `&str`: its
/// display form is the bright-black foreground escape, the text, and the
/// default-foreground escape.
#[verifier::external_body]
fn paint_dim(s: &str) -> (r: String)
    ensures
        r@ == spec_dim(s@),
{
    format!("{}", owo_colors::OwoColorize::bright_black(&s))
}

/// One displayed table cell: the measured value, its formatted form, and
/// its comparison outcome where a baseline is active.
pub struct CellData {
    pub raw: u64,
    pub formatted: String,
    pub baseline: Option<Result<u64, String>>,
}

impl CellData {
    /// Gathers one cell.
    pub fn new(raw: u64, formatted: String, baseline: Option<Result<u64, String>>) -> (r:
        CellData)
        ensures
            r.raw == raw,
            r.formatted@ == formatted@,
            r.baseline == baseline,
    {
        CellData { raw, formatted, baseline }
    }
}

/// The displayed form of a cell, over plain values: the formatted value,
/// and, where a comparison was made, a space and an annotation: a red
/// zero-baseline note, a classified and colored delta, or a red error
/// note.
pub open spec fn spec_cell_display(
    raw: int,
    formatted: Seq<char>,
    baseline: Option<Result<int, Seq<char>>>,
) -> Seq<char> {
    match baseline {
        Option::None => formatted,
        Option::Some(entry) => match entry {
            Result::Ok(b) => if b == 0 {
                formatted + seq![' '] + spec_red("(baseline 0)"@)
            } else {
                let txt = spec_delta_text(raw, b);
                formatted + seq![' '] + (match spec_classify(raw, b) {
                    DeltaClass::Improvement => spec_green(txt),
                    DeltaClass::Regression => spec_red(txt),
                    DeltaClass::Noise => spec_dim(txt),
                })
            },
            Result::Err(e) => formatted + seq![' '] + spec_red("("@ + e + ")"@),
        },
    }
}

/// A cell's comparison outcome as a mathematical value.
pub open spec fn spec_cell_baseline_model(b: Option<Result<u64, String>>) -> Option<
    Result<int, Seq<char>>,
> {
    match b {
        Option::None => Option::None,
        Option::Some(entry) => Option::Some(spec_entry_model(entry)),
    }
}

/// The displayed form of a cell.
pub open spec fn spec_format_cell(c: CellData) -> Seq<char> {
    spec_cell_display(c.raw as int, c.formatted@, spec_cell_baseline_model(c.baseline))
}

/// Renders one table cell with its baseline annotation.
pub fn format_cell(cell: &CellData) -> (r: String)
    ensures
        r@ == spec_format_cell(*cell),
{
    let mut out: String = cell.formatted.clone();
    match &cell.baseline {
        None => out,
        Some(entry) => {
            push_char(&mut out, ' ');
            match entry {
                Ok(b) => {
                    if *b == 0 {
                        let painted = paint_red("(baseline 0)");
                        out.append(painted.as_str());
                    } else {
                        let txt = format_delta_text(cell.raw, *b);
                        let painted = match classify_delta(cell.raw, *b) {
                            DeltaClass::Improvement => paint_green(txt.as_str()),
                            DeltaClass::Regression => paint_red(txt.as_str()),
                            DeltaClass::Noise => paint_dim(txt.as_str()),
                        };
                        out.append(painted.as_str());
                    }
                },
                Err(e) => {
                    let mut note = String::from_str("(");
                    note.append(e.as_str());
                    note.append(")");
                    let painted = paint_red(note.as_str());
                    out.append(painted.as_str());
                },
            }
            assert(out@ =~= spec_format_cell(*cell));
            out
        },
    }
}

} // verus!
