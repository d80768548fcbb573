//! Character-level text utilities: case-insensitive comparison, decimal
//! rendering, padding, truncation and file-name sanitizing.
//!
//! All contracts are stated over `Seq<char>` views, so callers can reason
//! about the exact characters of every produced `String`.

use vstd::prelude::*;
use vstd::string::*;

verus! {

/// Folds an ASCII upper-case letter (given as its scalar value) to the
/// scalar value of the corresponding lower-case letter.
pub open spec fn spec_lower_scalar(u: u32) -> u32 {
    if 65 <= u && u <= 90 {
        (u + 32) as u32
    } else {
        u
    }
}

/// Two character sequences are equal up to ASCII case.
pub open spec fn eq_ignore_case(a: Seq<char>, b: Seq<char>) -> bool {
    &&& a.len() == b.len()
    &&& forall|i: int|
        0 <= i < a.len() ==> spec_lower_scalar(#[trigger] a[i] as u32) == spec_lower_scalar(
            b[i] as u32,
        )
}

fn lower_scalar(u: u32) -> (r: u32)
    ensures
        r == spec_lower_scalar(u),
{
    if 65 <= u && u <= 90 {
        u + 32
    } else {
        u
    }
}

/// Compares two strings for equality ignoring ASCII case.
pub fn str_eq_ignore_case(a: &str, b: &str) -> (r: bool)
    ensures
        r == eq_ignore_case(a@, b@),
{
    let a_len: usize = a.unicode_len();
    let b_len: usize = b.unicode_len();
    if a_len != b_len {
        return false;
    }
    let mut i: usize = 0;
    while i < a_len
        invariant
            a_len == a@.len(),
            b_len == b@.len(),
            a_len == b_len,
            i <= a_len,
            forall|j: int|
                0 <= j < i ==> spec_lower_scalar(#[trigger] a@[j] as u32) == spec_lower_scalar(
                    b@[j] as u32,
                ),
        decreases a_len - i,
    {
        let ca: char = a.get_char(i);
        let cb: char = b.get_char(i);
        if lower_scalar(ca as u32) != lower_scalar(cb as u32) {
            return false;
        }
        i = i + 1;
    }
    true
}

/// Appends one character to a string.
///
/// Relies on `String::push` of std: it appends exactly the given character.
#[verifier::external_body]
pub fn push_char(s: &mut String, c: char)
    ensures
        final(s)@ == old(s)@.push(c),
{
    s.push(c);
}

/// The digit character for a value below ten.
pub open spec fn spec_digit_char(d: int) -> char {
    if d == 0 {
        '0'
    } else if d == 1 {
        '1'
    } else if d == 2 {
        '2'
    } else if d == 3 {
        '3'
    } else if d == 4 {
        '4'
    } else if d == 5 {
        '5'
    } else if d == 6 {
        '6'
    } else if d == 7 {
        '7'
    } else if d == 8 {
        '8'
    } else {
        '9'
    }
}

pub fn digit_char(d: u64) -> (c: char)
    requires
        d < 10,
    ensures
        c == spec_digit_char(d as int),
{
    if d == 0 {
        '0'
    } else if d == 1 {
        '1'
    } else if d == 2 {
        '2'
    } else if d == 3 {
        '3'
    } else if d == 4 {
        '4'
    } else if d == 5 {
        '5'
    } else if d == 6 {
        '6'
    } else if d == 7 {
        '7'
    } else if d == 8 {
        '8'
    } else {
        '9'
    }
}

/// The decimal digits of `n`, most significant first, with no leading zeros
/// (a single `'0'` for zero).
pub open spec fn spec_decimal(n: int) -> Seq<char>
    decreases n,
{
    if n < 10 {
        seq![spec_digit_char(if n < 0 { 0 } else { n })]
    } else {
        spec_decimal(n / 10).push(spec_digit_char(n % 10))
    }
}

/// Appends the decimal digits of `n` to `s`.
pub fn push_decimal(s: &mut String, n: u128)
    ensures
        final(s)@ == old(s)@ + spec_decimal(n as int),
    decreases n,
{
    if n < 10 {
        push_char(s, digit_char(n as u64));
        assert(old(s)@.push(spec_digit_char(n as int)) =~= old(s)@ + spec_decimal(n as int));
    } else {
        push_decimal(s, n / 10);
        push_char(s, digit_char((n % 10) as u64));
        assert((old(s)@ + spec_decimal(n as int / 10)).push(spec_digit_char(n as int % 10)) =~= old(
            s,
        )@ + spec_decimal(n as int));
    }
}

/// The string of decimal digits of `n`.
pub fn decimal_string(n: u128) -> (r: String)
    ensures
        r@ == spec_decimal(n as int),
{
    let mut s = String::new();
    push_decimal(&mut s, n);
    assert(Seq::<char>::empty() + spec_decimal(n as int) =~= spec_decimal(n as int));
    s
}

/// The `width` least significant decimal digits of `n`, zero padded on the
/// left, most significant first.
pub open spec fn spec_decimal_fixed(n: int, width: int) -> Seq<char>
    decreases width,
{
    if width <= 0 {
        Seq::<char>::empty()
    } else {
        spec_decimal_fixed(n / 10, width - 1).push(spec_digit_char(n % 10))
    }
}

/// Appends exactly `width` decimal digits of `n`, zero padded.
pub fn push_decimal_fixed(s: &mut String, n: u64, width: u64)
    ensures
        final(s)@ == old(s)@ + spec_decimal_fixed(n as int, width as int),
    decreases width,
{
    if width == 0 {
        assert(old(s)@ + spec_decimal_fixed(n as int, 0) =~= old(s)@);
    } else {
        push_decimal_fixed(s, n / 10, width - 1);
        push_char(s, digit_char(n % 10));
        assert((old(s)@ + spec_decimal_fixed(n as int / 10, width - 1)).push(
            spec_digit_char(n as int % 10),
        ) =~= old(s)@ + spec_decimal_fixed(n as int, width as int));
    }
}

/// A sequence of `n` spaces.
pub open spec fn spec_spaces(n: int) -> Seq<char>
    decreases n,
{
    if n <= 0 {
        Seq::<char>::empty()
    } else {
        spec_spaces(n - 1).push(' ')
    }
}

/// `s` padded with spaces on the right up to `width` characters; a longer
/// sequence is kept as it is.
pub open spec fn spec_pad_right(s: Seq<char>, width: int) -> Seq<char> {
    if s.len() >= width {
        s
    } else {
        s + spec_spaces(width - s.len())
    }
}

/// Appends `text` to `s`, padded with spaces up to `width` characters.
pub fn push_padded(s: &mut String, text: &str, width: usize)
    ensures
        final(s)@ == old(s)@ + spec_pad_right(text@, width as int),
{
    s.append(text);
    let len: usize = text.unicode_len();
    if len >= width {
        return;
    }
    let mut i: usize = len;
    while i < width
        invariant
            len < width,
            len <= i <= width,
            s@ == old(s)@ + text@ + spec_spaces(i - len),
        decreases width - i,
    {
        push_char(s, ' ');
        assert((old(s)@ + text@ + spec_spaces(i - len)).push(' ') =~= old(s)@ + text@ + spec_spaces(
            i + 1 - len,
        ));
        i = i + 1;
    }
    assert(old(s)@ + text@ + spec_spaces(width - len) =~= old(s)@ + spec_pad_right(
        text@,
        width as int,
    ));
}

/// The first `max` characters of `s` (all of them when `s` is shorter).
pub open spec fn spec_truncate(s: Seq<char>, max: int) -> Seq<char> {
    if s.len() <= max {
        s
    } else {
        s.subrange(0, max)
    }
}

/// Truncates a string to at most `max` characters.
pub fn truncate(input: &str, max: usize) -> (r: String)
    ensures
        r@ == spec_truncate(input@, max as int),
{
    let len: usize = input.unicode_len();
    if len <= max {
        input.to_owned()
    } else {
        let cut: &str = input.substring_char(0, max);
        assert(cut@ =~= spec_truncate(input@, max as int));
        cut.to_owned()
    }
}

/// True for the characters that a file name keeps unchanged: ASCII letters
/// and digits, `'.'`, `'/'` and `'-'`.
pub open spec fn spec_keeps_char(c: char) -> bool {
    ||| 48 <= c as u32 && c as u32 <= 57
    ||| 65 <= c as u32 && c as u32 <= 90
    ||| 97 <= c as u32 && c as u32 <= 122
    ||| c == '.'
    ||| c == '/'
    ||| c == '-'
}

/// What `sanitize` makes of one character.
pub open spec fn spec_sanitize_char(c: char) -> char {
    if spec_keeps_char(c) {
        c
    } else {
        '_'
    }
}

/// `s` with every character unfit for a file name replaced by `'_'`.
pub open spec fn spec_sanitized(s: Seq<char>) -> Seq<char> {
    Seq::new(s.len(), |i: int| spec_sanitize_char(s[i]))
}

/// Replaces every character other than ASCII letters, digits, `'.'`, `'/'`
/// and `'-'` by an underscore, so the result can serve as a file name.
pub fn sanitize(input: &str) -> (r: String)
    ensures
        r@ == spec_sanitized(input@),
{
    let len: usize = input.unicode_len();
    let mut out = String::new();
    let mut i: usize = 0;
    while i < len
        invariant
            len == input@.len(),
            i <= len,
            out@ == spec_sanitized(input@).subrange(0, i as int),
        decreases len - i,
    {
        let c: char = input.get_char(i);
        let u: u32 = c as u32;
        let keep: bool = (48 <= u && u <= 57) || (65 <= u && u <= 90) || (97 <= u && u <= 122) || c
            == '.' || c == '/' || c == '-';
        if keep {
            push_char(&mut out, c);
        } else {
            push_char(&mut out, '_');
        }
        assert(out@ =~= spec_sanitized(input@).subrange(0, i + 1));
        i = i + 1;
    }
    assert(spec_sanitized(input@).subrange(0, len as int) =~= spec_sanitized(input@));
    out
}

/// True for the ASCII whitespace characters that token trimming removes.
pub open spec fn spec_is_ws(c: char) -> bool {
    c == ' ' || c == '\t' || c == '\r' || c == '\n'
}

/// The characters of a string, as a vector.
pub fn str_chars(s: &str) -> (r: Vec<char>)
    ensures
        r@ == s@,
{
    let len: usize = s.unicode_len();
    let mut out: Vec<char> = Vec::new();
    let mut i: usize = 0;
    while i < len
        invariant
            len == s@.len(),
            i <= len,
            out@ =~= s@.subrange(0, i as int),
        decreases len - i,
    {
        out.push(s.get_char(i));
        i = i + 1;
    }
    assert(out@ =~= s@);
    out
}

/// The position of the first `sep` at or after `i`, or the length of `s`
/// when there is none.
pub open spec fn spec_scan_to(s: Seq<char>, i: int, sep: char) -> int
    decreases s.len() - i,
{
    if i >= s.len() {
        s.len() as int
    } else if s[i] == sep {
        i
    } else {
        spec_scan_to(s, i + 1, sep)
    }
}

/// Where the scan stops: at the first separator at or after `i`, or at the
/// end.
pub proof fn lemma_scan_to(s: Seq<char>, i: int, sep: char)
    requires
        0 <= i <= s.len(),
    ensures
        i <= spec_scan_to(s, i, sep) <= s.len(),
        spec_scan_to(s, i, sep) < s.len() ==> s[spec_scan_to(s, i, sep)] == sep,
        forall|j: int| i <= j < spec_scan_to(s, i, sep) ==> s[j] != sep,
    decreases s.len() - i,
{
    if i < s.len() && s[i] != sep {
        lemma_scan_to(s, i + 1, sep);
    }
}

/// Finds the first `sep` at or after `start`, or the length of the text.
pub fn scan_to(chars: &Vec<char>, start: usize, sep: char) -> (r: usize)
    requires
        start <= chars@.len(),
    ensures
        r == spec_scan_to(chars@, start as int, sep),
        start <= r <= chars@.len(),
{
    proof {
        lemma_scan_to(chars@, start as int, sep);
    }
    let len: usize = chars.len();
    let mut j: usize = start;
    while j < len && chars[j] != sep
        invariant
            start <= j <= len,
            len == chars@.len(),
            spec_scan_to(chars@, start as int, sep) == spec_scan_to(chars@, j as int, sep),
        decreases len - j,
    {
        j = j + 1;
    }
    j
}

/// The tokens of `s` from position `i` on, separated by `sep`.  An empty
/// text yields one empty token, as splitting does.
pub open spec fn spec_tokens_from(s: Seq<char>, i: int, sep: char) -> Seq<Seq<char>>
    decreases s.len() - i + 1,
    when 0 <= i <= s.len()
    via spec_tokens_from_dec
{
    let e = spec_scan_to(s, i, sep);
    seq![s.subrange(i, e)] + (if e == s.len() {
        Seq::<Seq<char>>::empty()
    } else {
        spec_tokens_from(s, e + 1, sep)
    })
}

#[via_fn]
proof fn spec_tokens_from_dec(s: Seq<char>, i: int, sep: char) {
    lemma_scan_to(s, i, sep);
}

/// The tokens of `s`, separated by `sep`.
pub open spec fn spec_tokens(s: Seq<char>, sep: char) -> Seq<Seq<char>> {
    spec_tokens_from(s, 0, sep)
}

/// `s` without leading trimmed whitespace.
pub open spec fn spec_trim_start(s: Seq<char>) -> Seq<char>
    decreases s.len(),
{
    if s.len() > 0 && spec_is_ws(s[0]) {
        spec_trim_start(s.drop_first())
    } else {
        s
    }
}

/// `s` without trailing trimmed whitespace.
pub open spec fn spec_trim_end(s: Seq<char>) -> Seq<char>
    decreases s.len(),
{
    if s.len() > 0 && spec_is_ws(s.last()) {
        spec_trim_end(s.drop_last())
    } else {
        s
    }
}

/// `s` without leading and trailing whitespace.
pub open spec fn spec_trim(s: Seq<char>) -> Seq<char> {
    spec_trim_end(spec_trim_start(s))
}

fn is_ws(c: char) -> (r: bool)
    ensures
        r == spec_is_ws(c),
{
    c == ' ' || c == '\t' || c == '\r' || c == '\n'
}

/// Narrows the range `[start, end)` of `chars` to its trimmed core: the
/// returned `(lo, hi)` satisfy
/// `chars[lo..hi] == spec_trim(chars[start..end])`.
pub fn trim_range(chars: &Vec<char>, start: usize, end: usize) -> (r: (usize, usize))
    requires
        start <= end <= chars@.len(),
    ensures
        start <= r.0 <= r.1 <= end,
        chars@.subrange(r.0 as int, r.1 as int) == spec_trim(chars@.subrange(
            start as int,
            end as int,
        )),
{
    let mut lo: usize = start;
    while lo < end && is_ws(chars[lo])
        invariant
            start <= lo <= end <= chars@.len(),
            spec_trim_start(chars@.subrange(start as int, end as int)) == spec_trim_start(
                chars@.subrange(lo as int, end as int),
            ),
        decreases end - lo,
    {
        assert(chars@.subrange(lo as int, end as int).drop_first() =~= chars@.subrange(
            lo + 1,
            end as int,
        ));
        lo = lo + 1;
    }
    assert(spec_trim_start(chars@.subrange(start as int, end as int)) == chars@.subrange(
        lo as int,
        end as int,
    ));
    let mut hi: usize = end;
    while hi > lo && is_ws(chars[hi - 1])
        invariant
            lo <= hi <= end <= chars@.len(),
            spec_trim_end(chars@.subrange(lo as int, end as int)) == spec_trim_end(
                chars@.subrange(lo as int, hi as int),
            ),
        decreases hi,
    {
        assert(chars@.subrange(lo as int, hi as int).drop_last() =~= chars@.subrange(
            lo as int,
            hi - 1,
        ));
        hi = hi - 1;
    }
    assert(spec_trim_end(chars@.subrange(lo as int, hi as int)) == chars@.subrange(
        lo as int,
        hi as int,
    ));
    (lo, hi)
}

/// True for a decimal digit.
pub open spec fn spec_is_digit(c: char) -> bool {
    48 <= c as u32 <= 57
}

/// The value of a decimal digit.
pub open spec fn spec_digit_val(c: char) -> int {
    c as u32 - 48
}

/// A non-empty run of decimal digits.
pub open spec fn spec_all_digits(s: Seq<char>) -> bool {
    s.len() >= 1 && forall|i: int| 0 <= i < s.len() ==> spec_is_digit(#[trigger] s[i])
}

/// The number that a run of decimal digits denotes; zero for the empty
/// run.
pub open spec fn spec_digits_value(s: Seq<char>) -> int
    decreases s.len(),
{
    if s.len() == 0 {
        0
    } else {
        spec_digits_value(s.drop_last()) * 10 + spec_digit_val(s.last())
    }
}

/// A run of digits denotes a non-negative number.
pub proof fn lemma_digits_value_nonneg(s: Seq<char>)
    requires
        forall|i: int| 0 <= i < s.len() ==> spec_is_digit(#[trigger] s[i]),
    ensures
        spec_digits_value(s) >= 0,
    decreases s.len(),
{
    if s.len() > 0 {
        lemma_digits_value_nonneg(s.drop_last());
    }
}

/// A prefix of a digit run denotes at most what the whole run denotes.
pub proof fn lemma_digits_prefix(s: Seq<char>, i: int)
    requires
        forall|j: int| 0 <= j < s.len() ==> spec_is_digit(#[trigger] s[j]),
        0 <= i <= s.len(),
    ensures
        spec_digits_value(s.take(i)) <= spec_digits_value(s),
    decreases s.len() - i,
{
    if i < s.len() {
        lemma_digits_prefix(s, i + 1);
        assert(s.take(i + 1).drop_last() =~= s.take(i));
        lemma_digits_value_nonneg(s.take(i));
        assert(s.take(s.len() as int) =~= s);
    } else {
        assert(s.take(i) =~= s);
    }
}

/// Reads the digit run `chars[lo..hi]` as a number, if it is a non-empty
/// run of decimal digits denoting at most `cap`.
pub fn parse_digits(chars: &Vec<char>, lo: usize, hi: usize, cap: u64) -> (r: Option<u64>)
    requires
        lo <= hi <= chars@.len(),
        cap <= 0x1000_0000_0000_0000,
    ensures
        r is Some <==> spec_all_digits(chars@.subrange(lo as int, hi as int)) && spec_digits_value(
            chars@.subrange(lo as int, hi as int),
        ) <= cap,
        r is Some ==> r->Some_0 == spec_digits_value(chars@.subrange(lo as int, hi as int)),
{
    let ghost t = chars@.subrange(lo as int, hi as int);
    if lo == hi {
        return None;
    }
    let mut acc: u64 = 0;
    let mut i: usize = lo;
    while i < hi
        invariant
            lo <= i <= hi <= chars@.len(),
            t == chars@.subrange(lo as int, hi as int),
            acc <= cap,
            cap <= 0x1000_0000_0000_0000,
            acc == spec_digits_value(t.take(i - lo)),
            forall|j: int| 0 <= j < i - lo ==> spec_is_digit(#[trigger] t[j]),
        decreases hi - i,
    {
        let c: char = chars[i];
        assert(t[i - lo] == c);
        let u: u32 = c as u32;
        if u < 48 || u > 57 {
            assert(!spec_is_digit(t[i - lo]));
            return None;
        }
        let d: u64 = (u - 48) as u64;
        let next: u64 = acc * 10 + d;
        assert(t.take(i - lo + 1).drop_last() =~= t.take(i - lo));
        assert(t.take(i - lo + 1).last() == t[i - lo]);
        if next > cap {
            proof {
                if spec_all_digits(t) {
                    lemma_digits_prefix(t, i - lo + 1);
                }
            }
            return None;
        }
        acc = next;
        i = i + 1;
    }
    assert(t.take(hi - lo) =~= t);
    Some(acc)
}

/// Compares the characters `chars[lo..hi]` with `b`, ignoring ASCII case.
pub fn range_eq_ignore_case(chars: &Vec<char>, lo: usize, hi: usize, b: &str) -> (r: bool)
    requires
        lo <= hi <= chars@.len(),
    ensures
        r == eq_ignore_case(chars@.subrange(lo as int, hi as int), b@),
{
    let ghost t = chars@.subrange(lo as int, hi as int);
    let b_len: usize = b.unicode_len();
    if hi - lo != b_len {
        return false;
    }
    let mut i: usize = 0;
    while i < b_len
        invariant
            lo <= hi <= chars@.len(),
            t == chars@.subrange(lo as int, hi as int),
            b_len == b@.len(),
            hi - lo == b_len,
            i <= b_len,
            forall|j: int|
                0 <= j < i ==> spec_lower_scalar(#[trigger] t[j] as u32) == spec_lower_scalar(
                    b@[j] as u32,
                ),
        decreases b_len - i,
    {
        let ca: char = chars[lo + i];
        let cb: char = b.get_char(i);
        assert(t[i as int] == ca);
        if lower_scalar(ca as u32) != lower_scalar(cb as u32) {
            return false;
        }
        i = i + 1;
    }
    true
}

/// The characters `chars[lo..hi]` as a fresh string.
pub fn range_to_string(chars: &Vec<char>, lo: usize, hi: usize) -> (r: String)
    requires
        lo <= hi <= chars@.len(),
    ensures
        r@ == chars@.subrange(lo as int, hi as int),
{
    let mut out = String::new();
    let mut i: usize = lo;
    while i < hi
        invariant
            lo <= i <= hi <= chars@.len(),
            out@ =~= chars@.subrange(lo as int, i as int),
        decreases hi - i,
    {
        push_char(&mut out, chars[i]);
        assert(out@ =~= chars@.subrange(lo as int, i + 1));
        i = i + 1;
    }
    assert(out@ =~= chars@.subrange(lo as int, hi as int));
    out
}

/// A sequence of `n` copies of one character.
pub open spec fn spec_repeat_char(c: char, n: int) -> Seq<char>
    decreases n,
{
    if n <= 0 {
        Seq::<char>::empty()
    } else {
        spec_repeat_char(c, n - 1).push(c)
    }
}

/// Appends `n` copies of `c` to `s`.
pub fn push_repeat(s: &mut String, c: char, n: usize)
    ensures
        final(s)@ == old(s)@ + spec_repeat_char(c, n as int),
{
    let mut i: usize = 0;
    while i < n
        invariant
            i <= n,
            s@ == old(s)@ + spec_repeat_char(c, i as int),
        decreases n - i,
    {
        push_char(s, c);
        assert((old(s)@ + spec_repeat_char(c, i as int)).push(c) =~= old(s)@ + spec_repeat_char(
            c,
            i + 1,
        ));
        i = i + 1;
    }
    assert(old(s)@ + spec_repeat_char(c, 0) =~= old(s)@);
}

} // verus!
