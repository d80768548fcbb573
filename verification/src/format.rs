//! Throughput arithmetic and number formatting.
//!
//! A throughput value counts operations per millisecond and is held in
//! fixed point with four decimal places: the `u64` value `v` stands for
//! `v / 10000` operations per millisecond.

use vstd::prelude::*;
use crate::text::{
    push_char, push_decimal, push_decimal_fixed, spec_decimal, spec_decimal_fixed,
};

verus! {

/// Throughput of `quantity` operations over `duration_us` microseconds, in
/// fixed-point units: `quantity * 1000 / duration_us` operations per
/// millisecond, scaled by ten thousand and rounded towards zero.  A zero
/// duration yields zero rather than a division fault.
pub fn throughput_e4(quantity: u32, duration_us: u64) -> (r: u64)
    ensures
        duration_us == 0 ==> r == 0,
        duration_us > 0 ==> r == quantity as int * 10_000_000 / duration_us as int,
        r <= quantity as int * 10_000_000,
{
    if duration_us == 0 {
        0
    } else {
        (quantity as u64) * 10_000_000 / duration_us
    }
}

/// Division rounded half up: `v / d` with the quotient increased by one when
/// the remainder is at least half of `d`.
pub open spec fn spec_round_div(v: int, d: int) -> int {
    if (v % d) * 2 >= d {
        v / d + 1
    } else {
        v / d
    }
}

/// How many decimal places a fixed-point throughput value is shown with:
/// more places for small values, so they stay distinguishable in a table.
pub open spec fn spec_cpms_decimals(v: int) -> int {
    if v < 1000 {
        4
    } else if v < 10000 {
        3
    } else if v < 100000 {
        2
    } else if v < 1000000 {
        1
    } else {
        0
    }
}

/// Ten to the `k`-th power, for the small exponents used here.
pub open spec fn spec_pow10(k: int) -> int {
    if k <= 0 {
        1
    } else if k == 1 {
        10
    } else if k == 2 {
        100
    } else if k == 3 {
        1000
    } else {
        10000
    }
}

/// The displayed form of the fixed-point value `v`: the value rounded half
/// up to `spec_cpms_decimals(v)` places, rendered with exactly that many
/// digits after the point (and without a point when there are none).
pub open spec fn spec_format_cpms(v: int) -> Seq<char> {
    let k = spec_cpms_decimals(v);
    let scaled = spec_round_div(v, spec_pow10(4 - k));
    if k == 0 {
        spec_decimal(scaled)
    } else {
        spec_decimal(scaled / spec_pow10(k)) + seq!['.'] + spec_decimal_fixed(
            scaled % spec_pow10(k),
            k,
        )
    }
}

/// Formats a fixed-point throughput value with precision that scales
/// inversely with magnitude: four decimals below 0.1, three below 1, two
/// below 10, one below 100, none above.
pub fn format_cpms(v: u64) -> (r: String)
    ensures
        r@ == spec_format_cpms(v as int),
{
    let k: u64 = if v < 1000 {
        4
    } else if v < 10000 {
        3
    } else if v < 100000 {
        2
    } else if v < 1000000 {
        1
    } else {
        0
    };
    let drop_scale: u64 = if k == 4 {
        1
    } else if k == 3 {
        10
    } else if k == 2 {
        100
    } else if k == 1 {
        1000
    } else {
        10000
    };
    let q: u64 = v / drop_scale;
    let rem: u64 = v % drop_scale;
    let scaled: u64 = if rem * 2 >= drop_scale {
        q + 1
    } else {
        q
    };
    assert(scaled == spec_round_div(v as int, spec_pow10(4 - k)));
    let mut out = String::new();
    if k == 0 {
        push_decimal(&mut out, scaled as u128);
        assert(Seq::<char>::empty() + spec_decimal(scaled as int) =~= spec_format_cpms(v as int));
    } else {
        let keep_scale: u64 = if k == 4 {
            10000
        } else if k == 3 {
            1000
        } else if k == 2 {
            100
        } else {
            10
        };
        assert(keep_scale == spec_pow10(k as int));
        push_decimal(&mut out, (scaled / keep_scale) as u128);
        push_char(&mut out, '.');
        push_decimal_fixed(&mut out, scaled % keep_scale, k);
        assert(out@ =~= spec_format_cpms(v as int));
    }
    out
}

/// The label of a shape size in a result document: the size, `'x'`, and the
/// size again.
pub open spec fn spec_size_label(s: int) -> Seq<char> {
    spec_decimal(s) + seq!['x'] + spec_decimal(s)
}

/// Formats a shape size as a square label such as a width, an `'x'` and the
/// same height.
pub fn format_size_label(s: u32) -> (r: String)
    ensures
        r@ == spec_size_label(s as int),
{
    let mut out = String::new();
    push_decimal(&mut out, s as u128);
    push_char(&mut out, 'x');
    push_decimal(&mut out, s as u128);
    assert(out@ =~= spec_size_label(s as int));
    out
}

} // verus!
