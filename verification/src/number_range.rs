//! An inclusive numeric range used to bound every randomized quantity, with
//! its textual syntax: either a single value `"N"` (meaning `[N, N]`) or an
//! inclusive pair `"A..=B"`.

use crate::digits::all_digits;
use crate::digits::digits_value;
use crate::digits::digit_value;
use crate::digits::is_ascii_digit;
use crate::digits::lemma_digits_value_take_le;
use crate::digits::spec_decimal;
use vstd::prelude::*;
use vstd::string::StrSliceExecFns;
use vstd::string::StringExecFns;

verus! {

/// An inclusive range `[start, end]` of `usize` values.
///
/// The invariant `start <= end` is established by every constructor; a
/// backwards range is rejected at construction and never silently clamped.
#[derive(Clone, Copy, Debug, PartialEq, Eq, Hash, Structural)]
pub struct NumberRange {
    start: usize,
    end: usize,
}

impl NumberRange {
    /// The lower endpoint, as a spec-level value.
    pub closed spec fn spec_start(&self) -> usize {
        self.start
    }

    /// The upper endpoint, as a spec-level value.
    pub closed spec fn spec_end(&self) -> usize {
        self.end
    }

    /// Well-formedness: the range is never backwards.
    pub open spec fn inv(&self) -> bool {
        self.spec_start() <= self.spec_end()
    }

    /// Builds the range `[start, end]`, rejecting a backwards range.
    pub fn new(start: usize, end: usize) -> (r: Option<NumberRange>)
        ensures
            r is Some <==> end >= start,
            r is Some ==> r->Some_0.spec_start() == start && r->Some_0.spec_end() == end,
    {
        if end >= start {
            Some(NumberRange { start, end })
        } else {
            None
        }
    }

    /// Builds the single-value range `[value, value]`.
    pub fn single(value: usize) -> (r: NumberRange)
        ensures
            r.spec_start() == value,
            r.spec_end() == value,
            r.inv(),
    {
        NumberRange { start: value, end: value }
    }

    /// The lower endpoint.
    pub fn start(&self) -> (r: usize)
        ensures
            r == self.spec_start(),
    {
        self.start
    }

    /// The upper endpoint.
    pub fn end(&self) -> (r: usize)
        ensures
            r == self.spec_end(),
    {
        self.end
    }
}

impl Default for NumberRange {
    /// The zero-width range at zero, `[0, 0]`.
    fn default() -> (r: Self)
        ensures
            r.spec_start() == 0,
            r.spec_end() == 0,
            r.inv(),
    {
        NumberRange { start: 0, end: 0 }
    }
}

/// Why a piece of range text was rejected.
#[derive(Clone, Debug, PartialEq, Eq)]
pub enum ParseError {
    /// A piece of text that should have been a number was not one, or its
    /// value does not fit the numeric type; the offending substring is kept.
    InvalidValue { text: String },
    /// Both endpoints were numbers, but the upper one was below the lower.
    BackwardsRange,
}

/// The digit part of numeric text: everything after an optional leading `+`.
pub open spec fn digits_part(s: Seq<char>) -> Seq<char> {
    if s.len() > 0 && s[0] == '+' {
        s.skip(1)
    } else {
        s
    }
}

/// What parsing `s` as a `usize` yields: the digit part must be nonempty, all
/// decimal digits, and its value must fit the type.
pub open spec fn spec_parse_value(s: Seq<char>) -> Option<usize> {
    let d = digits_part(s);
    if d.len() > 0 && all_digits(d) && digits_value(d) <= usize::MAX {
        Some(digits_value(d) as usize)
    } else {
        None
    }
}

/// Whether the three-character separator `..=` stands at position `i` of `s`.
pub open spec fn sep_at(s: Seq<char>, i: int) -> bool {
    &&& 0 <= i
    &&& i + 3 <= s.len()
    &&& s[i] == '.'
    &&& s[i + 1] == '.'
    &&& s[i + 2] == '='
}

/// The position of the first separator at or after `i`, if any.
pub open spec fn first_sep_from(s: Seq<char>, i: int) -> Option<int>
    decreases s.len() - i
    when 0 <= i <= s.len()
{
    if i + 3 > s.len() {
        None
    } else if sep_at(s, i) {
        Some(i)
    } else {
        first_sep_from(s, i + 1)
    }
}

/// The position of the first separator of `s`, if any.
pub open spec fn spec_first_sep(s: Seq<char>) -> Option<int> {
    first_sep_from(s, 0)
}

/// The endpoints that parsing `s` as a range yields, if it parses: without a
/// separator the single value twice, with one the two endpoints in order.
pub open spec fn spec_parse_range(s: Seq<char>) -> Option<(usize, usize)> {
    match spec_first_sep(s) {
        None => match spec_parse_value(s) {
            Some(v) => Some((v, v)),
            None => None,
        },
        Some(i) => match (spec_parse_value(s.take(i)), spec_parse_value(s.skip(i + 3))) {
            (Some(a), Some(b)) => if a <= b {
                Some((a, b))
            } else {
                None
            },
            _ => None,
        },
    }
}

/// Whether `s` names a backwards range: both endpoints parse, upper below lower.
pub open spec fn spec_backwards(s: Seq<char>) -> bool {
    match spec_first_sep(s) {
        None => false,
        Some(i) => match (spec_parse_value(s.take(i)), spec_parse_value(s.skip(i + 3))) {
            (Some(a), Some(b)) => a > b,
            _ => false,
        },
    }
}

/// The substring reported when `s` fails to parse for want of a number: the
/// whole text without a separator, else the first endpoint that is no number.
pub open spec fn spec_offending(s: Seq<char>) -> Seq<char> {
    match spec_first_sep(s) {
        None => s,
        Some(i) => if spec_parse_value(s.take(i)) is None {
            s.take(i)
        } else {
            s.skip(i + 3)
        },
    }
}

/// A separator at `j` with none before it (from `i` on) is the first one.
proof fn lemma_first_sep_some(s: Seq<char>, i: int, j: int)
    requires
        0 <= i <= j,
        j + 3 <= s.len(),
        sep_at(s, j),
        forall|k: int| i <= k < j ==> !sep_at(s, k),
    ensures
        first_sep_from(s, i) == Some(j),
    decreases j - i,
{
    if i < j {
        lemma_first_sep_some(s, i + 1, j);
    }
}

/// With no separator at or after `i`, there is no first one either.
proof fn lemma_first_sep_none(s: Seq<char>, i: int)
    requires
        0 <= i <= s.len(),
        forall|k: int| i <= k ==> !sep_at(s, k),
    ensures
        first_sep_from(s, i) == None::<int>,
    decreases s.len() - i,
{
    if i + 3 <= s.len() {
        lemma_first_sep_none(s, i + 1);
    }
}

/// Reads a `usize` from decimal text: an optional leading `+`, then one or
/// more digits whose value fits the type.
pub fn parse_usize(s: &str) -> (r: Option<usize>)
    ensures
        r == spec_parse_value(s@),
{
    let len = s.unicode_len();
    let start: usize = if len > 0 && s.get_char(0) == '+' {
        1
    } else {
        0
    };
    let ghost dp = digits_part(s@);
    proof {
        assert(dp =~= s@.skip(start as int));
    }
    if start == len {
        return None;
    }
    let mut acc: usize = 0;
    let mut i: usize = start;
    while i < len
        invariant
            start <= i <= len,
            len == s@.len(),
            dp == s@.skip(start as int),
            dp == digits_part(s@),
            all_digits(dp.take(i - start)),
            acc == digits_value(dp.take(i - start)),
        decreases len - i,
    {
        let c = s.get_char(i);
        proof {
            assert(dp[i - start] == s@[i as int]);
            assert(dp.take(i + 1 - start).drop_last() =~= dp.take(i - start));
            assert(dp.take(i + 1 - start).last() == dp[i - start]);
        }
        match crate::digits::digit_of_char(c) {
            None => {
                proof {
                    assert(!is_ascii_digit(dp[i - start]));
                }
                return None;
            },
            Some(d) => {
                proof {
                    assert(digits_value(dp.take(i + 1 - start)) == 10 * acc + digit_value(
                        dp[i - start],
                    ));
                }
                let next = match acc.checked_mul(10) {
                    Some(m) => m.checked_add(d),
                    None => None,
                };
                match next {
                    None => {
                        proof {
                            assert(digits_value(dp.take(i + 1 - start)) > usize::MAX);
                            if all_digits(dp) {
                                lemma_digits_value_take_le(dp, i + 1 - start);
                            }
                        }
                        return None;
                    },
                    Some(v) => {
                        acc = v;
                    },
                }
            },
        }
        i = i + 1;
    }
    proof {
        assert(dp.take(len - start) =~= dp);
    }
    Some(acc)
}

impl NumberRange {
    /// Reads a range from text: a single value `"N"`, or `"A..=B"` with
    /// `A <= B`; a backwards pair or a malformed number is rejected.
    pub fn from_str(s: &str) -> (r: Result<NumberRange, ParseError>)
        ensures
            r is Ok <==> spec_parse_range(s@) is Some,
            r matches Ok(rg) ==> spec_parse_range(s@) == Some(
                (rg.spec_start(), rg.spec_end()),
            ) && rg.inv(),
            r matches Err(e) ==> (e is BackwardsRange <==> spec_backwards(s@)),
            r matches Err(ParseError::InvalidValue { text }) ==> text@ == spec_offending(s@),
    {
        let len = s.unicode_len();
        let mut j: usize = 0;
        let mut sep: Option<usize> = None;
        if len >= 3 {
            while j <= len - 3
                invariant_except_break
                    sep is None,
                invariant
                    len == s@.len(),
                    len >= 3,
                    j <= len - 2,
                    forall|k: int| 0 <= k < j ==> !sep_at(s@, k),
                ensures
                    sep matches Some(p) ==> sep_at(s@, p as int) && (forall|k: int|
                        0 <= k < p ==> !sep_at(s@, k)),
                    sep is None ==> j + 3 > len && (forall|k: int| 0 <= k < j ==> !sep_at(s@, k)),
                decreases len - j,
            {
                if s.get_char(j) == '.' && s.get_char(j + 1) == '.' && s.get_char(j + 2) == '=' {
                    sep = Some(j);
                    break;
                }
                j = j + 1;
            }
        }
        match sep {
            None => {
                proof {
                    assert forall|k: int| 0 <= k implies !sep_at(s@, k) by {
                        if len >= 3 {
                            if k >= j {
                                assert(k + 3 > len);
                            }
                        } else {
                            assert(k + 3 > len);
                        }
                    }
                    lemma_first_sep_none(s@, 0);
                }
                match parse_usize(s) {
                    Some(v) => Ok(NumberRange::single(v)),
                    None => Err(ParseError::InvalidValue { text: s.to_owned() }),
                }
            },
            Some(i) => {
                proof {
                    lemma_first_sep_some(s@, 0, i as int);
                }
                let left = s.substring_char(0, i);
                let right = s.substring_char(i + 3, len);
                proof {
                    assert(left@ =~= s@.take(i as int));
                    assert(right@ =~= s@.skip(i + 3));
                }
                match parse_usize(left) {
                    None => Err(ParseError::InvalidValue { text: left.to_owned() }),
                    Some(a) => match parse_usize(right) {
                        None => Err(ParseError::InvalidValue { text: right.to_owned() }),
                        Some(b) => {
                            if a <= b {
                                Ok(NumberRange { start: a, end: b })
                            } else {
                                Err(ParseError::BackwardsRange)
                            }
                        },
                    },
                }
            },
        }
    }

    /// The text that names this range: the single value where the endpoints
    /// agree, else the two endpoints around the separator.
    pub open spec fn spec_text(&self) -> Seq<char> {
        if self.spec_start() == self.spec_end() {
            spec_decimal(self.spec_start() as int)
        } else {
            spec_decimal(self.spec_start() as int) + "..="@ + spec_decimal(self.spec_end() as int)
        }
    }

    /// Writes the range as text, in the same syntax that `from_str` reads.
    pub fn to_text(&self) -> (r: String)
        ensures
            r@ == self.spec_text(),
    {
        let mut out = crate::strings::decimal_string(self.start);
        if self.start == self.end {
            return out;
        }
        out.append("..=");
        let end_text = crate::strings::decimal_string(self.end);
        out.append(end_text.as_str());
        out
    }
}

impl ParseError {
    /// A human-readable description of the rejection.
    pub fn message(&self) -> (r: String)
        ensures
            self matches ParseError::InvalidValue { text } ==> r@ == "invalid number: "@ + text@,
            self is BackwardsRange ==> r@ == "Cannot construct a backwards range"@,
    {
        match self {
            ParseError::InvalidValue { text } => {
                let mut m = String::new();
                m.append("invalid number: ");
                m.append(text.as_str());
                proof {
                    assert(Seq::<char>::empty() + "invalid number: "@ =~= "invalid number: "@);
                }
                m
            },
            ParseError::BackwardsRange => String::from_str("Cannot construct a backwards range"),
        }
    }
}

} // verus!
