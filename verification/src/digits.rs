//! Decimal digit sequences: their numeric value and its formatting.
//!
//! These spec functions give the meaning of the textual range syntax, and the
//! executable conversions are proved against them.

use vstd::prelude::*;

verus! {

/// Whether `c` is an ASCII decimal digit.
pub open spec fn is_ascii_digit(c: char) -> bool {
    '0' as int <= c as int && c as int <= '9' as int
}

/// The numeric value of a single decimal digit character.
pub open spec fn digit_value(c: char) -> int {
    c as int - '0' as int
}

/// Whether every character of `s` is an ASCII decimal digit.
pub open spec fn all_digits(s: Seq<char>) -> bool {
    forall|i: int| 0 <= i < s.len() ==> is_ascii_digit(#[trigger] s[i])
}

/// The numeric value of a sequence of decimal digits, most significant first.
pub open spec fn digits_value(s: Seq<char>) -> int
    decreases s.len(),
{
    if s.len() == 0 {
        0
    } else {
        10 * digits_value(s.drop_last()) + digit_value(s.last())
    }
}

/// The digit character for a value below ten.
pub open spec fn digit_char(v: int) -> char {
    ('0' as int + v) as char
}

/// The decimal text of a nonnegative number, without sign or leading zeros
/// (except for the single digit `0` itself).
pub open spec fn spec_decimal(n: int) -> Seq<char>
    decreases n,
{
    if n < 10 {
        seq![digit_char(n)]
    } else {
        spec_decimal(n / 10).push(digit_char(n % 10))
    }
}

/// The value of a digit sequence is nonnegative.
pub proof fn lemma_digits_value_nonneg(s: Seq<char>)
    requires
        all_digits(s),
    ensures
        digits_value(s) >= 0,
    decreases s.len(),
{
    if s.len() > 0 {
        assert(all_digits(s.drop_last()));
        lemma_digits_value_nonneg(s.drop_last());
        assert(is_ascii_digit(s.last()));
    }
}

/// Extending a digit sequence on the right never decreases its value.
pub proof fn lemma_digits_value_take_le(s: Seq<char>, i: int)
    requires
        all_digits(s),
        0 <= i <= s.len(),
    ensures
        digits_value(s.take(i)) <= digits_value(s),
    decreases s.len() - i,
{
    if i == s.len() {
        assert(s.take(i) =~= s);
    } else {
        assert(s.take(i + 1).drop_last() =~= s.take(i));
        assert(s.take(i + 1).last() == s[i]);
        assert(all_digits(s.take(i)));
        lemma_digits_value_nonneg(s.take(i));
        assert(digits_value(s.take(i + 1)) == 10 * digits_value(s.take(i)) + digit_value(s[i]));
        lemma_digits_value_take_le(s, i + 1);
    }
}

/// Reads the value of the digit character `c`.
pub fn digit_of_char(c: char) -> (r: Option<usize>)
    ensures
        r is Some <==> is_ascii_digit(c),
        r is Some ==> r->Some_0 == digit_value(c),
{
    let cu = c as u32;
    if 48 <= cu && cu <= 57 {
        Some((cu - 48) as usize)
    } else {
        None
    }
}

/// Writes the digit character for `v`.
pub fn char_of_digit(v: usize) -> (r: char)
    requires
        v < 10,
    ensures
        r == digit_char(v as int),
        is_ascii_digit(r),
        digit_value(r) == v,
{
    match v {
        0 => '0',
        1 => '1',
        2 => '2',
        3 => '3',
        4 => '4',
        5 => '5',
        6 => '6',
        7 => '7',
        8 => '8',
        _ => '9',
    }
}

/// The decimal text of `n`, as a sequence of digit characters.
pub fn decimal_chars(n: usize) -> (r: Vec<char>)
    ensures
        r@ == spec_decimal(n as int),
{
    let mut out: Vec<char> = Vec::new();
    let d0 = char_of_digit(n % 10);
    out.push(d0);
    let mut m: usize = n / 10;
    proof {
        if n >= 10 {
            assert(spec_decimal(n as int) =~= spec_decimal(n as int / 10) + seq![
                digit_char(n as int % 10),
            ]);
        } else {
            assert(spec_decimal(n as int) =~= seq![digit_char(n as int)]);
        }
    }
    while m > 0
        invariant
            if m > 0 {
                spec_decimal(n as int) =~= spec_decimal(m as int) + out@
            } else {
                spec_decimal(n as int) =~= out@
            },
        decreases m,
    {
        let d = char_of_digit(m % 10);
        let ghost old_out = out@;
        out.insert(0, d);
        proof {
            assert(out@ =~= seq![digit_char(m as int % 10)] + old_out);
            if m >= 10 {
                assert(spec_decimal(m as int) =~= spec_decimal(m as int / 10) + seq![
                    digit_char(m as int % 10),
                ]);
                assert(spec_decimal(n as int) =~= spec_decimal(m as int / 10) + out@);
            } else {
                assert(spec_decimal(m as int) =~= seq![digit_char(m as int)]);
                assert(spec_decimal(n as int) =~= out@);
            }
        }
        m = m / 10;
    }
    out
}

} // verus!
