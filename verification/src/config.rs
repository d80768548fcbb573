//! The benchmark's typed configuration: the raw option values, their
//! validation, and the parsers for the size list and the test filter.
//!
//! Validation is eager and complete: every configuration error is found
//! before any measurement begins.

use vstd::prelude::*;
use vstd::seq_lib::*;
use vstd::set_lib::lemma_len_subset;
use crate::catalog::{
    find_test_chars, spec_all_tests, spec_bench_sizes, spec_find_test, TestKind,
    bench_shape_sizes,
};
use crate::text::{
    range_to_string, scan_to, spec_all_digits, spec_digits_value, spec_tokens,
    spec_tokens_from, spec_trim, str_chars, trim_range, parse_digits,
};

verus! {

/// A configuration fault that aborts the run before any measurement.
#[derive(Debug, Clone)]
pub enum ConfigError {
    /// A size entry that is not an unsigned number.
    InvalidSize(String),
    /// An explicit size list with no entries.
    NoSizes,
    /// A filter that mixes additive and subtractive entries.
    MixedToggleModes,
    /// A filter entry that names no known item.
    UnknownEntry(String),
    /// A baseline size label that does not start with a number.
    InvalidSizeLabel(String),
}

impl ConfigError {
    /// A descriptive message for the fault.
    pub fn message(&self) -> (r: String)
        ensures
            self is InvalidSize ==> r@ == "Invalid size '"@ + self->InvalidSize_0@ + "'"@,
            self is NoSizes ==> r@ == "No sizes provided"@,
            self is MixedToggleModes ==> r@ == "Cannot mix additive and subtractive entries"@,
            self is UnknownEntry ==> r@ == "Unknown entry '"@ + self->UnknownEntry_0@ + "'"@,
            self is InvalidSizeLabel ==> r@ == "invalid baseline size '"@
                + self->InvalidSizeLabel_0@ + "'"@,
    {
        match self {
            ConfigError::InvalidSize(part) => {
                let mut m = String::from_str("Invalid size '");
                m.append(part.as_str());
                m.append("'");
                m
            },
            ConfigError::NoSizes => String::from_str("No sizes provided"),
            ConfigError::MixedToggleModes => String::from_str(
                "Cannot mix additive and subtractive entries",
            ),
            ConfigError::UnknownEntry(name) => {
                let mut m = String::from_str("Unknown entry '");
                m.append(name.as_str());
                m.append("'");
                m
            },
            ConfigError::InvalidSizeLabel(label) => {
                let mut m = String::from_str("invalid baseline size '");
                m.append(label.as_str());
                m.append("'");
                m
            },
        }
    }
}

/// The raw option values the harness is invoked with.
#[derive(Debug, Clone)]
pub struct Blend2dArgs {
    /// Canvas width.
    pub width: u32,
    /// Canvas height.
    pub height: u32,
    /// Operations per batch; zero asks for auto-detection.
    pub quantity: u32,
    /// How many sizes of the default ladder to use when no explicit list
    /// is given.
    pub size_count: u32,
    /// Minimum timed runs per cell; the best result is kept.
    pub min_runs: u32,
    /// An explicit comma-separated size list.
    pub size_list: Option<String>,
    /// A test filter: comma-separated names, or `-name` entries that
    /// subtract from the default set.
    pub test_list: Option<String>,
    /// The thread counts to benchmark, one backend per count.
    pub threads: Vec<u16>,
    /// Preview mode: a reduced quantity and an overview image per test.
    pub preview: bool,
    /// A result document to compare against.
    pub baseline: Option<String>,
    /// Where the result document is written.
    pub json_path: String,
}

/// The validated configuration a run works from.
#[derive(Debug, Clone)]
pub struct BenchmarkConfig {
    pub width: u32,
    pub height: u32,
    pub quantity: u32,
    pub min_runs: u32,
    pub sizes: Vec<u32>,
    pub tests: Vec<TestKind>,
    pub threads: Vec<u16>,
    pub preview: bool,
    pub baseline: Option<String>,
    pub json_path: String,
}

impl BenchmarkConfig {
    /// What validation guarantees: at least one size, and a duplicate-free
    /// selection of catalog tests (hence at most the whole catalog).
    pub open spec fn wf(&self) -> bool {
        &&& self.sizes@.len() >= 1
        &&& self.tests@.no_duplicates()
        &&& forall|i: int|
            0 <= i < self.tests@.len() ==> spec_all_tests().contains(#[trigger] self.tests@[i])
        &&& self.tests@.len() <= spec_all_tests().len()
    }
}

/// A duplicate-free selection out of the catalog is no longer than the
/// catalog.
pub proof fn lemma_distinct_selection_bounded(ts: Seq<TestKind>)
    requires
        ts.no_duplicates(),
        forall|i: int| 0 <= i < ts.len() ==> spec_all_tests().contains(#[trigger] ts[i]),
    ensures
        ts.len() <= spec_all_tests().len(),
{
    broadcast use vstd::seq_lib::seq_to_set_is_finite;
    broadcast use vstd::set::group_set_axioms;

    ts.unique_seq_to_set();
    assert(ts.to_set().subset_of(spec_all_tests().to_set())) by {
        assert forall|t: TestKind| ts.to_set().contains(t) implies spec_all_tests()
            .to_set()
            .contains(t) by {
            assert(ts.contains(t));
            let i = choose|i: int| 0 <= i < ts.len() && ts[i] == t;
            assert(spec_all_tests().contains(ts[i]));
        }
    }
    spec_all_tests().lemma_cardinality_of_set();
    lemma_len_subset(ts.to_set(), spec_all_tests().to_set());
}

/// What a trimmed, non-empty filter token asks for: its subject name, and
/// whether it adds or subtracts.
pub open spec fn spec_token_subtracts(t: Seq<char>) -> bool {
    t[0] == '-'
}

/// The name part of a trimmed, non-empty filter token.
pub open spec fn spec_token_name(t: Seq<char>) -> Seq<char> {
    if t[0] == '-' {
        t.drop_first()
    } else {
        t
    }
}

/// Adds a selection to the list unless it is already there.
pub open spec fn spec_toggle_insert(acc: Seq<TestKind>, t: TestKind) -> Seq<TestKind> {
    if acc.contains(t) {
        acc
    } else {
        acc.push(t)
    }
}

/// What a whole filter string comes to.
pub enum ToggleOutcome {
    /// Additive and subtractive entries were mixed.
    Mixed,
    /// An entry named no known item.
    Unknown(Seq<char>),
    /// The selected tests, in order.
    Selected(Seq<TestKind>),
}

/// The final selection: what was named, or, for a subtractive filter, the
/// catalog without what was named.
pub open spec fn spec_toggle_result(subtract: bool, acc: Seq<TestKind>) -> Seq<TestKind> {
    if subtract {
        spec_all_tests().filter(|t: TestKind| !acc.contains(t))
    } else {
        acc
    }
}

/// Folds the filter tokens left to right.  `mode` is 0 before the first
/// non-empty token, 1 in additive and -1 in subtractive mode.
pub open spec fn spec_toggle_fold(toks: Seq<Seq<char>>, mode: int, acc: Seq<TestKind>)
    -> ToggleOutcome
    decreases toks.len(),
{
    if toks.len() == 0 {
        ToggleOutcome::Selected(spec_toggle_result(mode == -1, acc))
    } else {
        let t = spec_trim(toks[0]);
        if t.len() == 0 {
            spec_toggle_fold(toks.drop_first(), mode, acc)
        } else {
            let m: int = if spec_token_subtracts(t) {
                -1
            } else {
                1
            };
            if mode != 0 && mode != m {
                ToggleOutcome::Mixed
            } else {
                match spec_find_test(spec_token_name(t)) {
                    Option::None => ToggleOutcome::Unknown(spec_token_name(t)),
                    Option::Some(v) => spec_toggle_fold(
                        toks.drop_first(),
                        m,
                        spec_toggle_insert(acc, v),
                    ),
                }
            }
        }
    }
}

/// What a filter string selects: its comma-separated entries folded in
/// order.
pub open spec fn spec_parse_toggle(s: Seq<char>) -> ToggleOutcome {
    spec_toggle_fold(spec_tokens(s, ','), 0, Seq::empty())
}

fn contains_test(v: &Vec<TestKind>, t: TestKind) -> (r: bool)
    ensures
        r == v@.contains(t),
{
    let mut i: usize = 0;
    while i < v.len()
        invariant
            i <= v@.len(),
            forall|j: int| 0 <= j < i ==> v@[j] != t,
        decreases v@.len() - i,
    {
        if v[i] == t {
            return true;
        }
        i = i + 1;
    }
    false
}

/// Selects tests by a filter string: comma-separated names select exactly
/// the named set, `-name` entries subtract from the default set, the two
/// modes may not be mixed, and an unknown name is a configuration error.
/// Without a filter the whole catalog is selected.
pub fn parse_toggle_list(list: Option<&str>) -> (r: Result<Vec<TestKind>, ConfigError>)
    ensures
        list is None ==> r is Ok && r->Ok_0@ == spec_all_tests(),
        list is Some ==> match spec_parse_toggle(list->Some_0@) {
            ToggleOutcome::Mixed => r is Err && r->Err_0 is MixedToggleModes,
            ToggleOutcome::Unknown(name) => r is Err && r->Err_0 is UnknownEntry
                && r->Err_0->UnknownEntry_0@ == name,
            ToggleOutcome::Selected(ts) => r is Ok && r->Ok_0@ == ts,
        },
        r is Ok ==> r->Ok_0@.no_duplicates(),
        r is Ok ==> forall|i: int|
            0 <= i < r->Ok_0@.len() ==> spec_all_tests().contains(#[trigger] r->Ok_0@[i]),
{
    if list.is_none() {
        let all = TestKind::all();
        proof {
            crate::catalog::lemma_all_tests_no_duplicates();
        }
        return Ok(all);
    }
    let text: &str = list.unwrap();
    let chars: Vec<char> = str_chars(text);
    let len: usize = chars.len();
    let mut acc: Vec<TestKind> = Vec::new();
    let mut have_mode: bool = false;
    let mut subtract: bool = false;
    let mut pos: usize = 0;
    let mut more: bool = true;
    while more
        invariant
            list is Some,
            list->Some_0@ == text@,
            len == chars@.len(),
            chars@ == text@,
            more ==> pos <= len,
            acc@.no_duplicates(),
            forall|i: int| 0 <= i < acc@.len() ==> spec_all_tests().contains(#[trigger] acc@[i]),
            more ==> spec_parse_toggle(text@) == spec_toggle_fold(
                spec_tokens_from(text@, pos as int, ','),
                if !have_mode {
                    0int
                } else if subtract {
                    -1int
                } else {
                    1int
                },
                acc@,
            ),
            !more ==> spec_parse_toggle(text@) == spec_toggle_fold(
                Seq::<Seq<char>>::empty(),
                if !have_mode {
                    0int
                } else if subtract {
                    -1int
                } else {
                    1int
                },
                acc@,
            ),
        decreases
                (if more {
                    1int
                } else {
                    0int
                }),
                len - pos,
    {
        let e: usize = scan_to(&chars, pos, ',');
        let ghost toks = spec_tokens_from(text@, pos as int, ',');
        proof {
            assert(toks[0] == text@.subrange(pos as int, e as int));
            if e == len {
                assert(toks.drop_first() =~= Seq::<Seq<char>>::empty());
            } else {
                assert(toks.drop_first() =~= spec_tokens_from(text@, e + 1, ','));
            }
        }
        let (lo, hi): (usize, usize) = trim_range(&chars, pos, e);
        let ghost t = spec_trim(toks[0]);
        if lo < hi {
            let subtracts: bool = chars[lo] == '-';
            assert(t[0] == chars@[lo as int]);
            let name_lo: usize = if subtracts {
                lo + 1
            } else {
                lo
            };
            proof {
                assert(spec_token_name(t) =~= chars@.subrange(name_lo as int, hi as int));
            }
            if have_mode && subtracts != subtract {
                return Err(ConfigError::MixedToggleModes);
            }
            match find_test_chars(&chars, name_lo, hi) {
                None => {
                    return Err(ConfigError::UnknownEntry(range_to_string(&chars, name_lo, hi)));
                },
                Some(v) => {
                    have_mode = true;
                    subtract = subtracts;
                    if !contains_test(&acc, v) {
                        proof {
                            lemma_test_index_contains(v);
                        }
                        acc.push(v);
                    }
                },
            }
        }
        if e == len {
            more = false;
        } else {
            pos = e + 1;
        }
    }
    if have_mode && subtract {
        let all: Vec<TestKind> = TestKind::all();
        let ghost pred = |t: TestKind| !acc@.contains(t);
        let mut out: Vec<TestKind> = Vec::new();
        let mut i: usize = 0;
        while i < all.len()
            invariant
                all@ == spec_all_tests(),
                i <= all@.len(),
                pred == (|t: TestKind| !acc@.contains(t)),
                out@ == all@.take(i as int).filter(pred),
            decreases all@.len() - i,
        {
            let keep: bool = !contains_test(&acc, all[i]);
            proof {
                assert(all@.take(i + 1).drop_last() =~= all@.take(i as int));
                reveal(Seq::filter);
            }
            if keep {
                out.push(all[i]);
            }
            i = i + 1;
        }
        assert(all@.take(all@.len() as int) =~= all@);
        proof {
            all@.filter_lemma(pred);
            crate::catalog::lemma_all_tests_no_duplicates();
            lemma_filter_no_duplicates(spec_all_tests(), pred);
        }
        Ok(out)
    } else {
        Ok(acc)
    }
}

/// Every test kind is in the catalog.
proof fn lemma_test_index_contains(t: TestKind)
    ensures
        spec_all_tests().contains(t),
{
    crate::catalog::lemma_test_index(t);
}

/// Filtering keeps a sequence duplicate-free.
proof fn lemma_filter_no_duplicates<A>(s: Seq<A>, pred: spec_fn(A) -> bool)
    requires
        s.no_duplicates(),
    ensures
        s.filter(pred).no_duplicates(),
    decreases s.len(),
{
    reveal(Seq::filter);
    if s.len() > 0 {
        lemma_filter_no_duplicates(s.drop_last(), pred);
        if pred(s.last()) {
            s.drop_last().filter_lemma(pred);
            assert forall|i: int, j: int|
                0 <= i < j < s.filter(pred).len() implies s.filter(pred)[i] != s.filter(
                pred,
            )[j] by {
                if j == s.filter(pred).len() - 1 {
                    assert(s.filter(pred)[j] == s.last());
                    assert(s.drop_last().filter(pred).contains(s.filter(pred)[i]));
                    s.drop_last().lemma_filter_contains_rev(pred, s.filter(pred)[i]);
                    assert(s.drop_last().contains(s.filter(pred)[i]));
                    let k = choose|k: int|
                        0 <= k < s.drop_last().len() && s.drop_last()[k] == s.filter(pred)[i];
                    assert(s[k] == s.filter(pred)[i]);
                }
            }
        }
    }
}

/// What the size options come to: the parsed explicit list, or a prefix
/// of the default ladder when none is given.
pub enum SizesOutcome {
    /// An explicit list entry that is not an unsigned number.
    Invalid(Seq<char>),
    /// An explicit list with no entries.
    Empty,
    /// The chosen ladder, in order.
    Chosen(Seq<u32>),
}

/// How many sizes of the default ladder a count selects: clamped to the
/// ladder's length and at least one.
pub open spec fn spec_clamped_size_count(size_count: u32) -> int {
    if size_count < 1 {
        1
    } else if size_count > 6 {
        6
    } else {
        size_count as int
    }
}

/// The ladder the size options choose.
pub open spec fn spec_sizes_choice(size_list: Option<String>, size_count: u32) -> SizesOutcome {
    match size_list {
        Option::Some(l) => match spec_sizes_fold(spec_tokens(l@, ',')) {
            Result::Ok(sizes) => if sizes.len() == 0 {
                SizesOutcome::Empty
            } else {
                SizesOutcome::Chosen(sizes)
            },
            Result::Err(tok) => SizesOutcome::Invalid(tok),
        },
        Option::None => SizesOutcome::Chosen(
            spec_bench_sizes().take(spec_clamped_size_count(size_count)),
        ),
    }
}

/// The tests the filter option selects: the whole catalog when no filter
/// is given.
pub open spec fn spec_tests_choice(test_list: Option<String>) -> ToggleOutcome {
    match test_list {
        Option::Some(l) => spec_parse_toggle(l@),
        Option::None => ToggleOutcome::Selected(spec_all_tests()),
    }
}

/// How `parse_sizes` reads its tokens: blanks are skipped, every other
/// token must be an unsigned number, and the first bad token is the error.
pub open spec fn spec_sizes_fold(toks: Seq<Seq<char>>) -> Result<Seq<u32>, Seq<char>>
    decreases toks.len(),
{
    if toks.len() == 0 {
        Result::Ok(Seq::<u32>::empty())
    } else {
        let t = spec_trim(toks[0]);
        if t.len() == 0 {
            spec_sizes_fold(toks.drop_first())
        } else if spec_all_digits(t) && spec_digits_value(t) <= u32::MAX {
            match spec_sizes_fold(toks.drop_first()) {
                Result::Ok(s) => Result::Ok(seq![spec_digits_value(t) as u32] + s),
                Result::Err(e) => Result::Err(e),
            }
        } else {
            Result::Err(toks[0])
        }
    }
}

/// Parses an explicit comma-separated size list.  Blank entries are
/// skipped; an entry that is not an unsigned number is an error carrying
/// that entry; a list with no sizes at all is an error of its own.
pub fn parse_sizes(list: &str) -> (r: Result<Vec<u32>, ConfigError>)
    ensures
        match spec_sizes_fold(spec_tokens(list@, ',')) {
            Result::Ok(sizes) => if sizes.len() == 0 {
                r is Err && r->Err_0 is NoSizes
            } else {
                r is Ok && r->Ok_0@ == sizes
            },
            Result::Err(tok) => r is Err && r->Err_0 is InvalidSize
                && r->Err_0->InvalidSize_0@ == tok,
        },
{
    let chars: Vec<char> = str_chars(list);
    let len: usize = chars.len();
    let mut out: Vec<u32> = Vec::new();
    let mut pos: usize = 0;
    let mut more: bool = true;
    while more
        invariant
            len == chars@.len(),
            chars@ == list@,
            more ==> pos <= len,
            more ==> spec_sizes_fold(spec_tokens(list@, ',')) == (match spec_sizes_fold(
                spec_tokens_from(list@, pos as int, ','),
            ) {
                Result::Ok(s) => Result::<Seq<u32>, Seq<char>>::Ok(out@ + s),
                Result::Err(e) => Result::<Seq<u32>, Seq<char>>::Err(e),
            }),
            !more ==> spec_sizes_fold(spec_tokens(list@, ',')) == Result::<
                Seq<u32>,
                Seq<char>,
            >::Ok(out@),
        decreases
                (if more {
                    1int
                } else {
                    0int
                }),
                len - pos,
    {
        let e: usize = scan_to(&chars, pos, ',');
        let ghost toks = spec_tokens_from(list@, pos as int, ',');
        proof {
            assert(toks[0] == list@.subrange(pos as int, e as int));
            if e == len {
                assert(toks.drop_first() =~= Seq::<Seq<char>>::empty());
            } else {
                assert(toks.drop_first() =~= spec_tokens_from(list@, e + 1, ','));
            }
        }
        let (lo, hi): (usize, usize) = trim_range(&chars, pos, e);
        if lo < hi {
            match parse_digits(&chars, lo, hi, 0xFFFF_FFFF) {
                Some(v) => {
                    let ghost old_out = out@;
                    out.push(v as u32);
                    proof {
                        if spec_sizes_fold(toks.drop_first()) is Ok {
                            let s = spec_sizes_fold(toks.drop_first())->Ok_0;
                            assert(old_out + (seq![spec_digits_value(spec_trim(toks[0])) as u32]
                                + s) =~= out@ + s);
                        }
                        assert(out@ + Seq::<u32>::empty() =~= out@);
                    }
                },
                None => {
                    return Err(ConfigError::InvalidSize(range_to_string(&chars, pos, e)));
                },
            }
        }
        proof {
            assert(out@ + Seq::<u32>::empty() =~= out@);
        }
        if e == len {
            more = false;
        } else {
            pos = e + 1;
        }
    }
    if out.len() == 0 {
        assert(out@ =~= Seq::<u32>::empty());
        return Err(ConfigError::NoSizes);
    }
    Ok(out)
}

/// Keeps `v` sorted and duplicate-free while adding `x`.
fn insert_sorted_unique(v: &mut Vec<u16>, x: u16)
    requires
        forall|i: int, j: int| 0 <= i < j < old(v)@.len() ==> old(v)@[i] < old(v)@[j],
    ensures
        forall|i: int, j: int| 0 <= i < j < final(v)@.len() ==> final(v)@[i] < final(v)@[j],
        forall|y: u16| final(v)@.contains(y) <==> old(v)@.contains(y) || y == x,
{
    let mut j: usize = 0;
    while j < v.len() && v[j] < x
        invariant
            j <= v@.len(),
            v@ == old(v)@,
            forall|k: int| 0 <= k < j ==> v@[k] < x,
        decreases v@.len() - j,
    {
        j = j + 1;
    }
    if j < v.len() && v[j] == x {
        assert forall|y: u16| v@.contains(y) <==> old(v)@.contains(y) || y == x by {
            if y == x {
                assert(v@[j as int] == x);
            }
        }
        return;
    }
    let ghost before = v@;
    v.insert(j, x);
    proof {
        before.insert_ensures(j as int, x);
        assert forall|a: int, b: int| 0 <= a < b < v@.len() implies v@[a] < v@[b] by {
            if b < j {
            } else if a < j && b == j {
            } else if a == j {
                assert(v@[b] == before[b - 1]);
                if j < before.len() {
                    assert(before[j as int] != x);
                    assert(before[j as int] >= x);
                    if b - 1 > j {
                        assert(before[j as int] < before[b - 1]);
                    }
                }
            } else if a > j {
                assert(v@[a] == before[a - 1]);
                assert(v@[b] == before[b - 1]);
            } else {
                assert(v@[a] == before[a]);
                assert(v@[b] == before[b - 1]);
                if j < before.len() {
                    assert(before[j as int] >= x);
                }
                assert(before[a] < x);
                if b - 1 == a {
                    assert(v@[b] == before[a]);
                    assert(false);
                } else {
                }
            }
        }
        assert forall|y: u16| v@.contains(y) <==> before.contains(y) || y == x by {
            if v@.contains(y) {
                let k = choose|k: int| 0 <= k < v@.len() && v@[k] == y;
                if k < j {
                    assert(before[k] == y);
                    assert(before.contains(y));
                } else if k == j {
                    assert(y == x);
                } else {
                    assert(before[k - 1] == y);
                    assert(before.contains(y));
                }
            }
            if before.contains(y) {
                let k = choose|k: int| 0 <= k < before.len() && before[k] == y;
                if k < j {
                    assert(v@[k] == y);
                    assert(v@.contains(y));
                } else {
                    assert(v@[k + 1] == y);
                    assert(v@.contains(y));
                }
            }
            if y == x {
                assert(v@[j as int] == y);
                assert(v@.contains(y));
            }
        }
    }
}

/// Sorts the thread counts and drops duplicates: the result is strictly
/// ascending and holds exactly the values of the input.
pub fn sorted_unique_u16(input: Vec<u16>) -> (r: Vec<u16>)
    ensures
        forall|i: int, j: int| 0 <= i < j < r@.len() ==> r@[i] < r@[j],
        forall|y: u16| r@.contains(y) <==> input@.contains(y),
{
    let mut out: Vec<u16> = Vec::new();
    let mut i: usize = 0;
    while i < input.len()
        invariant
            i <= input@.len(),
            forall|a: int, b: int| 0 <= a < b < out@.len() ==> out@[a] < out@[b],
            forall|y: u16| out@.contains(y) <==> input@.take(i as int).contains(y),
        decreases input@.len() - i,
    {
        let ghost before = out@;
        insert_sorted_unique(&mut out, input[i]);
        proof {
            assert forall|y: u16| out@.contains(y) <==> input@.take(i + 1).contains(y) by {
                if out@.contains(y) {
                    if before.contains(y) {
                        assert(input@.take(i as int).contains(y));
                        let k = choose|k: int|
                            0 <= k < input@.take(i as int).len() && #[trigger] input@.take(
                                i as int,
                            )[k] == y;
                        assert(input@.take(i + 1)[k] == y);
                    } else {
                        assert(y == input@[i as int]);
                        assert(input@.take(i + 1)[i as int] == y);
                    }
                }
                if input@.take(i + 1).contains(y) {
                    let k = choose|k: int|
                        0 <= k < input@.take(i + 1).len() && #[trigger] input@.take(i + 1)[k] == y;
                    if k < i {
                        assert(input@.take(i as int)[k] == y);
                        assert(before.contains(y));
                    } else {
                        assert(y == input@[i as int]);
                    }
                }
            }
        }
        i = i + 1;
    }
    assert(input@.take(input@.len() as int) =~= input@);
    out
}

impl BenchmarkConfig {
    /// Validates the raw options eagerly and completely, before any
    /// measurement: thread counts are sorted and deduplicated (an empty
    /// list means one single-threaded backend), the size ladder comes from
    /// the explicit list or as a prefix of the default ladder, the test
    /// filter is resolved against the catalog, preview mode reduces the
    /// quantity to ten, and the minimum-runs floor is at least one.
    pub fn from_args(args: Blend2dArgs) -> (r: Result<BenchmarkConfig, ConfigError>)
        ensures
            r is Ok ==> r->Ok_0.wf(),
            r is Ok ==> {
                let c = r->Ok_0;
                &&& c.width == args.width
                &&& c.height == args.height
                &&& c.quantity == (if args.preview {
                    10u32
                } else {
                    args.quantity
                })
                &&& c.min_runs == (if args.min_runs >= 1 {
                    args.min_runs
                } else {
                    1u32
                })
                &&& c.preview == args.preview
                &&& (forall|i: int, j: int| 0 <= i < j < c.threads@.len() ==> c.threads@[i]
                    < c.threads@[j])
                &&& (args.threads@.len() == 0 ==> c.threads@ =~= seq![0u16])
                &&& (args.threads@.len() > 0 ==> forall|y: u16|
                    c.threads@.contains(y) <==> args.threads@.contains(y))
            },
            match spec_sizes_choice(args.size_list, args.size_count) {
                SizesOutcome::Invalid(tok) => r is Err && r->Err_0 is InvalidSize
                    && r->Err_0->InvalidSize_0@ == tok,
                SizesOutcome::Empty => r is Err && r->Err_0 is NoSizes,
                SizesOutcome::Chosen(sizes) => match spec_tests_choice(args.test_list) {
                    ToggleOutcome::Mixed => r is Err && r->Err_0 is MixedToggleModes,
                    ToggleOutcome::Unknown(name) => r is Err && r->Err_0 is UnknownEntry
                        && r->Err_0->UnknownEntry_0@ == name,
                    ToggleOutcome::Selected(ts) => r is Ok && r->Ok_0.sizes@ == sizes
                        && r->Ok_0.tests@ == ts,
                },
            },
    {
        let mut threads: Vec<u16> = sorted_unique_u16(args.threads);
        proof {
            if args.threads@.len() == 0 && threads@.len() > 0 {
                assert(args.threads@.contains(threads@[0]));
            }
            if args.threads@.len() > 0 && threads@.len() == 0 {
                assert(args.threads@.contains(args.threads@[0]));
                assert(threads@.contains(args.threads@[0]));
            }
        }
        if threads.len() == 0 {
            threads.push(0);
            assert(threads@ =~= seq![0u16]);
        }

        let sizes: Vec<u32> = match args.size_list {
            Some(ref list) => {
                match parse_sizes(list.as_str()) {
                    Ok(s) => s,
                    Err(e) => {
                        return Err(e);
                    },
                }
            },
            None => {
                let count: usize = if args.size_count < 1 {
                    1
                } else if args.size_count > 6 {
                    6
                } else {
                    args.size_count as usize
                };
                let ladder: Vec<u32> = bench_shape_sizes();
                let mut prefix: Vec<u32> = Vec::new();
                let mut i: usize = 0;
                while i < count
                    invariant
                        1 <= count <= 6,
                        ladder@ == spec_bench_sizes(),
                        i <= count,
                        prefix@ =~= spec_bench_sizes().take(i as int),
                    decreases count - i,
                {
                    prefix.push(ladder[i]);
                    assert(prefix@ =~= spec_bench_sizes().take(i + 1));
                    i = i + 1;
                }
                prefix
            },
        };

        let tests: Vec<TestKind> = match parse_toggle_list(
            match args.test_list {
                Some(ref list) => Some(list.as_str()),
                None => None,
            },
        ) {
            Ok(ts) => ts,
            Err(e) => {
                return Err(e);
            },
        };
        proof {
            lemma_distinct_selection_bounded(tests@);
        }

        let quantity: u32 = if args.preview {
            10
        } else {
            args.quantity
        };
        let min_runs: u32 = if args.min_runs >= 1 {
            args.min_runs
        } else {
            1
        };

        Ok(
            BenchmarkConfig {
                width: args.width,
                height: args.height,
                quantity,
                min_runs,
                sizes,
                tests,
                threads,
                preview: args.preview,
                baseline: args.baseline,
                json_path: args.json_path,
            },
        )
    }
}

} // verus!
