//! The size filter: a compact `[+|-]<integer>[k|M|G|T|P]` literal parsed
//! into a signed byte-count comparison.

use vstd::prelude::*;
use vstd::string::StrSliceExecFns;

use crate::error::FindError;
use crate::scan::all_ascii_digits;
use crate::scan::decimal_digits;
use crate::scan::digit_run_start;
use crate::scan::digits_val;
use crate::scan::digits_value_up_to;
use crate::scan::find_digit_run_start;
use crate::scan::is_ascii_digit;
use crate::scan::is_digit_char;
use crate::scan::is_sign;
use crate::scan::lemma_decimal_digits;
use crate::scan::lemma_digit_run_start;
use crate::scan::lemma_digit_run_start_is;
use crate::scan::lemma_mul_within;

verus! {

/// A byte-count comparison against an object's size: exactly, more than, or
/// less than the given number of bytes.
///
/// The sign of the literal picks the variant; the count itself is never
/// negative in a parsed value.
#[derive(Debug, Clone, PartialEq)]
pub enum FindSize {
    Equal(i64),
    Bigger(i64),
    Lower(i64),
}

/// Whether `c` is a size unit suffix.
pub open spec fn is_size_unit(c: char) -> bool {
    c == 'k' || c == 'M' || c == 'G' || c == 'T' || c == 'P'
}

/// The byte multiplier of a size unit: consecutive powers of 1024.
pub open spec fn size_unit_factor(c: char) -> nat
    recommends
        is_size_unit(c),
{
    if c == 'k' {
        1024
    } else if c == 'M' {
        1024 * 1024
    } else if c == 'G' {
        1024 * 1024 * 1024
    } else if c == 'T' {
        1024 * 1024 * 1024 * 1024
    } else {
        1024 * 1024 * 1024 * 1024 * 1024
    }
}

/// Where the numeric part of the literal ends: just before a trailing unit
/// suffix, else at the end of the string.
pub open spec fn size_body_end(t: Seq<char>) -> int {
    if t.len() > 0 && is_size_unit(t.last()) {
        t.len() - 1
    } else {
        t.len() as int
    }
}

/// The multiplier the literal's unit suffix applies, 1 without one.
pub open spec fn size_factor(t: Seq<char>) -> nat {
    if t.len() > 0 && is_size_unit(t.last()) {
        size_unit_factor(t.last())
    } else {
        1
    }
}

/// The digit run of the literal: the maximal run of decimal digits (the
/// regex engine's full class) just before the unit suffix (or the end).
pub open spec fn size_digits(t: Seq<char>) -> Seq<char> {
    t.subrange(digit_run_start(t, size_body_end(t)), size_body_end(t))
}

/// The explicit sign of the literal: a `+` or `-` immediately before its
/// digit run, if there is one.
pub open spec fn size_sign(t: Seq<char>) -> Option<char> {
    let k = digit_run_start(t, size_body_end(t));
    if k > 0 && is_sign(t[k - 1]) {
        Some(t[k - 1])
    } else {
        None
    }
}

/// What the size grammar makes of `t`: the digit run times the unit
/// multiplier, under the variant the sign picks, anchored at the end of the
/// string. `None` when the digit run is empty, holds a digit outside
/// `0`-`9` (no integer can be read from it then), or gives a byte count
/// that does not fit a signed 64-bit integer.
pub open spec fn parse_size(t: Seq<char>) -> Option<FindSize> {
    let bytes = digits_val(size_digits(t)) * size_factor(t);
    if size_digits(t).len() > 0 && all_ascii_digits(size_digits(t)) && bytes <= i64::MAX {
        if size_sign(t) == Some('+') {
            Some(FindSize::Bigger(bytes as i64))
        } else if size_sign(t) == Some('-') {
            Some(FindSize::Lower(bytes as i64))
        } else {
            Some(FindSize::Equal(bytes as i64))
        }
    } else {
        None
    }
}

impl FindSize {
    /// Parses a `[+|-]<integer>[k|M|G|T|P]` size literal anchored at the end
    /// of `s`: `+` means bigger, `-` means lower, no sign means exactly.
    ///
    /// Fails exactly when the literal carries no digits, its digit run
    /// holds a decimal digit outside `0`-`9`, or the byte count overflows a
    /// signed 64-bit integer.
    pub fn from_str(s: &str) -> (r: Result<FindSize, FindError>)
        ensures
            r is Ok <==> parse_size(s@) is Some,
            r matches Ok(v) ==> parse_size(s@) == Some(v),
            r matches Err(e) ==> e == FindError::SizeParse,
    {
        let ghost t = s@;
        let n = s.unicode_len();
        let mut j: usize = n;
        let mut factor: u64 = 1;
        if n > 0 {
            let c = s.get_char(n - 1);
            if c == 'k' {
                j = n - 1;
                factor = 1024;
            } else if c == 'M' {
                j = n - 1;
                factor = 1024 * 1024;
            } else if c == 'G' {
                j = n - 1;
                factor = 1024 * 1024 * 1024;
            } else if c == 'T' {
                j = n - 1;
                factor = 1024 * 1024 * 1024 * 1024;
            } else if c == 'P' {
                j = n - 1;
                factor = 1024 * 1024 * 1024 * 1024 * 1024;
            }
        }
        assert(j as int == size_body_end(t));
        assert(factor as nat == size_factor(t));
        let k = find_digit_run_start(s, j);
        if k == j {
            assert(size_digits(t).len() == 0);
            return Err(FindError::SizeParse);
        }
        proof {
            lemma_digit_run_start(t, j as int);
            lemma_mul_within(digits_val(size_digits(t)), factor as nat, i64::MAX as nat);
        }
        let limit = (i64::MAX as u64) / factor;
        let value = match digits_value_up_to(s, k, j, limit) {
            Some(v) => v,
            None => {
                return Err(FindError::SizeParse);
            },
        };
        let bytes = (value * factor) as i64;
        if k > 0 {
            let c = s.get_char(k - 1);
            if c == '+' {
                return Ok(FindSize::Bigger(bytes));
            }
            if c == '-' {
                return Ok(FindSize::Lower(bytes));
            }
        }
        Ok(FindSize::Equal(bytes))
    }
}

/// The canonical rendering of a size filter: the byte count in decimal,
/// preceded by the variant's sign.
pub open spec fn canonical_size(v: FindSize) -> Seq<char> {
    match v {
        FindSize::Equal(b) => decimal_digits(b as nat),
        FindSize::Bigger(b) => seq!['+'] + decimal_digits(b as nat),
        FindSize::Lower(b) => seq!['-'] + decimal_digits(b as nat),
    }
}

/// Law: re-parsing the canonical rendering of any successfully parsed size
/// filter yields the same value.
pub proof fn lemma_size_round_trip(s: Seq<char>, v: FindSize)
    requires
        parse_size(s) == Some(v),
    ensures
        parse_size(canonical_size(v)) == Some(v),
{
    let b = match v {
        FindSize::Equal(b) => b,
        FindSize::Bigger(b) => b,
        FindSize::Lower(b) => b,
    };
    assert(b >= 0);
    let d = decimal_digits(b as nat);
    lemma_decimal_digits(b as nat);
    let t = canonical_size(v);
    match v {
        FindSize::Equal(_) => {
            assert(t == d);
            assert(!is_size_unit(t.last()));
            assert(size_body_end(t) == t.len());
            assert(forall|i: int| 0 <= i < t.len() ==> is_digit_char(#[trigger] t[i]));
            lemma_digit_run_start_is(t, t.len() as int, 0);
            assert(size_digits(t) =~= d);
            assert(all_ascii_digits(size_digits(t)));
            assert(size_sign(t) is None);
            assert(size_factor(t) == 1);
            assert(digits_val(size_digits(t)) == b as nat);
            vstd::arithmetic::mul::lemma_mul_basics(digits_val(size_digits(t)) as int);
            assert(digits_val(size_digits(t)) * size_factor(t) == b as nat);
            assert(size_digits(t).len() > 0);
            assert(b as nat <= i64::MAX);
            assert(parse_size(t) == Some(FindSize::Equal((b as nat) as i64)));
            assert((b as nat) as i64 == b);
        },
        FindSize::Bigger(_) => {
            assert(t == seq!['+'] + d);
            assert(t.last() == d.last());
            assert(!is_size_unit(t.last()));
            assert(size_body_end(t) == t.len());
            assert(forall|i: int| 1 <= i < t.len() ==> is_ascii_digit(#[trigger] t[i]));
            assert(forall|i: int| 1 <= i < t.len() ==> is_digit_char(#[trigger] t[i]));
            assert(!is_digit_char(t[0]));
            lemma_digit_run_start_is(t, t.len() as int, 1);
            assert(size_digits(t) =~= d);
            assert(all_ascii_digits(size_digits(t)));
            assert(size_sign(t) == Some('+'));
            assert(size_factor(t) == 1);
            assert(digits_val(size_digits(t)) == b as nat);
            vstd::arithmetic::mul::lemma_mul_basics(digits_val(size_digits(t)) as int);
            assert(digits_val(size_digits(t)) * size_factor(t) == b as nat);
            assert(size_digits(t).len() > 0 && b as nat <= i64::MAX);
            assert(parse_size(t) == Some(FindSize::Bigger((b as nat) as i64)));
            assert((b as nat) as i64 == b);
        },
        FindSize::Lower(_) => {
            assert(t == seq!['-'] + d);
            assert(t.last() == d.last());
            assert(!is_size_unit(t.last()));
            assert(size_body_end(t) == t.len());
            assert(forall|i: int| 1 <= i < t.len() ==> is_ascii_digit(#[trigger] t[i]));
            assert(forall|i: int| 1 <= i < t.len() ==> is_digit_char(#[trigger] t[i]));
            assert(!is_digit_char(t[0]));
            lemma_digit_run_start_is(t, t.len() as int, 1);
            assert(size_digits(t) =~= d);
            assert(all_ascii_digits(size_digits(t)));
            assert(size_sign(t) == Some('-'));
            assert(size_factor(t) == 1);
            assert(digits_val(size_digits(t)) == b as nat);
            vstd::arithmetic::mul::lemma_mul_basics(digits_val(size_digits(t)) as int);
            assert(digits_val(size_digits(t)) * size_factor(t) == b as nat);
            assert(size_digits(t).len() > 0 && b as nat <= i64::MAX);
            assert(parse_size(t) == Some(FindSize::Lower((b as nat) as i64)));
            assert((b as nat) as i64 == b);
        },
    }
}

} // verus!
