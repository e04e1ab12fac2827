//! Random value generators: bounded integers, raw byte buffers, text-like
//! argument strings, and hexadecimal identifiers for filenames.
//!
//! Every quantity is bounded by an explicit [`NumberRange`]; the contracts
//! state exactly the bounds that hold of every draw. Argument lengths are
//! counted in Unicode scalar values.

use crate::digits::digit_char;
use crate::number_range::NumberRange;
use crate::rng_source::RandomSource;
use vstd::prelude::*;

verus! {

/// Whether `c` is a lowercase hexadecimal digit.
pub open spec fn is_hex_digit_char(c: char) -> bool {
    ('0' as int <= c as int && c as int <= '9' as int) || ('a' as int <= c as int && c as int
        <= 'f' as int)
}

/// The lowercase hexadecimal digit character for a value below sixteen.
pub open spec fn spec_hex_char(v: int) -> char {
    if v < 10 {
        digit_char(v)
    } else {
        ('a' as int + (v - 10)) as char
    }
}

/// Writes the lowercase hexadecimal digit for `v`.
pub fn hex_char(v: usize) -> (r: char)
    requires
        v < 16,
    ensures
        r == spec_hex_char(v as int),
        is_hex_digit_char(r),
{
    if v < 10 {
        crate::digits::char_of_digit(v)
    } else {
        match v {
            10 => 'a',
            11 => 'b',
            12 => 'c',
            13 => 'd',
            14 => 'e',
            _ => 'f',
        }
    }
}

/// Draws a value uniformly from the inclusive range.
pub fn n_from_range(rng: &mut RandomSource, range: &NumberRange) -> (r: usize)
    requires
        range.inv(),
    ensures
        range.spec_start() <= r <= range.spec_end(),
{
    rng.next_in_range(range.start(), range.end())
}

/// Draws exactly `n` bytes, each independently and uniformly; every byte of
/// the buffer is written before the buffer is returned.
pub fn bytes(rng: &mut RandomSource, n: usize) -> (r: Vec<u8>)
    ensures
        r@.len() == n,
{
    let mut out: Vec<u8> = Vec::new();
    let mut i: usize = 0;
    while i < n
        invariant
            i <= n,
            out@.len() == i,
        decreases n - i,
    {
        out.push(rng.next_byte());
        i = i + 1;
    }
    out
}

/// Draws a string of exactly `n` uniformly sampled Unicode scalar values.
pub fn string(rng: &mut RandomSource, n: usize) -> (r: String)
    ensures
        r@.len() == n,
{
    let mut out = String::new();
    let mut i: usize = 0;
    while i < n
        invariant
            i <= n,
            out@.len() == i,
        decreases n - i,
    {
        let c = rng.next_char();
        crate::strings::push_char(&mut out, c);
        i = i + 1;
    }
    out
}

/// Draws one argument string: a length uniform in `[0, max_len]`, then that
/// many uniformly sampled scalar values. The result is always valid text.
pub fn argument_string(rng: &mut RandomSource, max_len: usize) -> (r: String)
    ensures
        r@.len() <= max_len,
{
    let n = rng.next_in_range(0, max_len);
    string(rng, n)
}

/// Draws the extra command-line arguments for one trial: a count uniform in
/// `range`, then that many independent argument strings of at most `max_len`
/// scalar values each.
pub fn extra_args(rng: &mut RandomSource, range: &NumberRange, max_len: usize) -> (r: Vec<String>)
    requires
        range.inv(),
        max_len >= 1,
    ensures
        range.spec_start() <= r@.len() <= range.spec_end(),
        forall|i: int| 0 <= i < r@.len() ==> #[trigger] r@[i]@.len() <= max_len,
{
    let n = n_from_range(rng, range);
    let mut out: Vec<String> = Vec::new();
    let mut i: usize = 0;
    while i < n
        invariant
            i <= n,
            out@.len() == i,
            max_len >= 1,
            forall|k: int| 0 <= k < out@.len() ==> #[trigger] out@[k]@.len() <= max_len,
        decreases n - i,
    {
        let arg = argument_string(rng, max_len);
        out.push(arg);
        i = i + 1;
    }
    out
}

/// Draws the stdin payload for one trial: a byte count uniform in `range`,
/// then that many uniform bytes.
pub fn stdin(rng: &mut RandomSource, range: &NumberRange) -> (r: Vec<u8>)
    requires
        range.inv(),
    ensures
        range.spec_start() <= r@.len() <= range.spec_end(),
{
    let n = n_from_range(rng, range);
    bytes(rng, n)
}

/// Draws `len` characters, each an independently and uniformly sampled
/// lowercase hexadecimal digit; used for unique filename suffixes.
pub fn hex_string(rng: &mut RandomSource, len: usize) -> (r: String)
    ensures
        r@.len() == len,
        forall|i: int| 0 <= i < r@.len() ==> is_hex_digit_char(#[trigger] r@[i]),
{
    let mut out = String::new();
    let mut i: usize = 0;
    while i < len
        invariant
            i <= len,
            out@.len() == i,
            forall|k: int| 0 <= k < out@.len() ==> is_hex_digit_char(#[trigger] out@[k]),
        decreases len - i,
    {
        let v = rng.next_in_range(0, 15);
        let c = hex_char(v);
        crate::strings::push_char(&mut out, c);
        i = i + 1;
    }
    out
}

} // verus!
