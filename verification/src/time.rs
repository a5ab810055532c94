//! The modification-time filter: a compact `[+|-]<integer>[s|m|h|d|w]`
//! literal parsed into a signed second-count comparison.

use vstd::prelude::*;
use vstd::string::StrSliceExecFns;

use crate::error::FindError;
use crate::scan::all_ascii_digits;
use crate::scan::decimal_digits;
use crate::scan::digit_run_start;
use crate::scan::digits_val;
use crate::scan::digits_value_up_to;
use crate::scan::find_digit_run_start;
use crate::scan::is_ascii_digit;
use crate::scan::is_digit_char;
use crate::scan::is_sign;
use crate::scan::lemma_decimal_digits;
use crate::scan::lemma_digit_run_start;
use crate::scan::lemma_digit_run_start_is;
use crate::scan::lemma_mul_within;

verus! {

/// A second-count comparison against an object's age: modified within the
/// last so many seconds (`Upper`) or more than so many seconds ago
/// (`Lower`).
///
/// There is no exact variant: a time filter is always directional, and a
/// literal without a sign means `Upper`.
#[derive(Debug, Clone, PartialEq)]
pub enum FindTime {
    Upper(i64),
    Lower(i64),
}

/// Whether `c` is a time unit suffix.
pub open spec fn is_time_unit(c: char) -> bool {
    c == 's' || c == 'm' || c == 'h' || c == 'd' || c == 'w'
}

/// The second multiplier of a time unit: seconds, minutes, hours, days,
/// weeks.
pub open spec fn time_unit_factor(c: char) -> nat
    recommends
        is_time_unit(c),
{
    if c == 's' {
        1
    } else if c == 'm' {
        60
    } else if c == 'h' {
        3600
    } else if c == 'd' {
        86400
    } else {
        604800
    }
}

/// Where the numeric part of the literal ends: just before a trailing unit
/// suffix, else at the end of the string.
pub open spec fn time_body_end(t: Seq<char>) -> int {
    if t.len() > 0 && is_time_unit(t.last()) {
        t.len() - 1
    } else {
        t.len() as int
    }
}

/// The multiplier the literal's unit suffix applies, 1 without one.
pub open spec fn time_factor(t: Seq<char>) -> nat {
    if t.len() > 0 && is_time_unit(t.last()) {
        time_unit_factor(t.last())
    } else {
        1
    }
}

/// The digit run of the literal: the maximal run of decimal digits (the
/// regex engine's full class) just before the unit suffix (or the end).
pub open spec fn time_digits(t: Seq<char>) -> Seq<char> {
    t.subrange(digit_run_start(t, time_body_end(t)), time_body_end(t))
}

/// The explicit sign of the literal: a `+` or `-` immediately before its
/// digit run, if there is one.
pub open spec fn time_sign(t: Seq<char>) -> Option<char> {
    let k = digit_run_start(t, time_body_end(t));
    if k > 0 && is_sign(t[k - 1]) {
        Some(t[k - 1])
    } else {
        None
    }
}

/// What the time grammar makes of `t`: the digit run times the unit
/// multiplier, anchored at the end of the string; `-` picks `Lower`, while
/// `+` and the absence of a sign both pick `Upper`. `None` when the digit
/// run is empty, holds a digit outside `0`-`9` (no integer can be read
/// from it then), or gives a second count that does not fit a signed
/// 64-bit integer.
pub open spec fn parse_time(t: Seq<char>) -> Option<FindTime> {
    let seconds = digits_val(time_digits(t)) * time_factor(t);
    if time_digits(t).len() > 0 && all_ascii_digits(time_digits(t)) && seconds <= i64::MAX {
        if time_sign(t) == Some('-') {
            Some(FindTime::Lower(seconds as i64))
        } else {
            Some(FindTime::Upper(seconds as i64))
        }
    } else {
        None
    }
}

impl FindTime {
    /// Parses a `[+|-]<integer>[s|m|h|d|w]` time literal anchored at the end
    /// of `s`: `-` means more than that many seconds ago, `+` or no sign
    /// means within the last that many seconds.
    ///
    /// Fails exactly when the literal carries no digits, its digit run
    /// holds a decimal digit outside `0`-`9`, or the second count overflows
    /// a signed 64-bit integer.
    pub fn from_str(s: &str) -> (r: Result<FindTime, FindError>)
        ensures
            r is Ok <==> parse_time(s@) is Some,
            r matches Ok(v) ==> parse_time(s@) == Some(v),
            r matches Err(e) ==> e == FindError::TimeParse,
    {
        let ghost t = s@;
        let n = s.unicode_len();
        let mut j: usize = n;
        let mut factor: u64 = 1;
        if n > 0 {
            let c = s.get_char(n - 1);
            if c == 's' {
                j = n - 1;
                factor = 1;
            } else if c == 'm' {
                j = n - 1;
                factor = 60;
            } else if c == 'h' {
                j = n - 1;
                factor = 3600;
            } else if c == 'd' {
                j = n - 1;
                factor = 86400;
            } else if c == 'w' {
                j = n - 1;
                factor = 604800;
            }
        }
        assert(j as int == time_body_end(t));
        assert(factor as nat == time_factor(t));
        let k = find_digit_run_start(s, j);
        if k == j {
            assert(time_digits(t).len() == 0);
            return Err(FindError::TimeParse);
        }
        proof {
            lemma_digit_run_start(t, j as int);
            lemma_mul_within(digits_val(time_digits(t)), factor as nat, i64::MAX as nat);
        }
        let limit = (i64::MAX as u64) / factor;
        let value = match digits_value_up_to(s, k, j, limit) {
            Some(v) => v,
            None => {
                return Err(FindError::TimeParse);
            },
        };
        let seconds = (value * factor) as i64;
        if k > 0 {
            let c = s.get_char(k - 1);
            if c == '-' {
                return Ok(FindTime::Lower(seconds));
            }
        }
        Ok(FindTime::Upper(seconds))
    }
}

/// The canonical rendering of a time filter: the second count in decimal,
/// preceded by `-` for `Lower` and unsigned for `Upper`.
pub open spec fn canonical_time(v: FindTime) -> Seq<char> {
    match v {
        FindTime::Upper(c) => decimal_digits(c as nat),
        FindTime::Lower(c) => seq!['-'] + decimal_digits(c as nat),
    }
}

/// Law: re-parsing the canonical rendering of any successfully parsed time
/// filter yields the same value.
pub proof fn lemma_time_round_trip(s: Seq<char>, v: FindTime)
    requires
        parse_time(s) == Some(v),
    ensures
        parse_time(canonical_time(v)) == Some(v),
{
    let c = match v {
        FindTime::Upper(c) => c,
        FindTime::Lower(c) => c,
    };
    assert(c >= 0);
    let d = decimal_digits(c as nat);
    lemma_decimal_digits(c as nat);
    let t = canonical_time(v);
    match v {
        FindTime::Upper(_) => {
            assert(t == d);
            assert(!is_time_unit(t.last()));
            assert(time_body_end(t) == t.len());
            assert(forall|i: int| 0 <= i < t.len() ==> is_digit_char(#[trigger] t[i]));
            lemma_digit_run_start_is(t, t.len() as int, 0);
            assert(time_digits(t) =~= d);
            assert(all_ascii_digits(time_digits(t)));
            assert(time_sign(t) is None);
            assert(time_factor(t) == 1);
            assert(digits_val(time_digits(t)) == c as nat);
            vstd::arithmetic::mul::lemma_mul_basics(digits_val(time_digits(t)) as int);
            assert(digits_val(time_digits(t)) * time_factor(t) == c as nat);
            assert(time_digits(t).len() > 0);
            assert(c as nat <= i64::MAX);
            assert(parse_time(t) == Some(FindTime::Upper((c as nat) as i64)));
            assert((c as nat) as i64 == c);
        },
        FindTime::Lower(_) => {
            assert(t == seq!['-'] + d);
            assert(t.last() == d.last());
            assert(!is_time_unit(t.last()));
            assert(time_body_end(t) == t.len());
            assert(forall|i: int| 1 <= i < t.len() ==> is_ascii_digit(#[trigger] t[i]));
            assert(forall|i: int| 1 <= i < t.len() ==> is_digit_char(#[trigger] t[i]));
            assert(!is_digit_char(t[0]));
            lemma_digit_run_start_is(t, t.len() as int, 1);
            assert(time_digits(t) =~= d);
            assert(all_ascii_digits(time_digits(t)));
            assert(time_sign(t) == Some('-'));
            assert(time_factor(t) == 1);
            assert(digits_val(time_digits(t)) == c as nat);
            vstd::arithmetic::mul::lemma_mul_basics(digits_val(time_digits(t)) as int);
            assert(digits_val(time_digits(t)) * time_factor(t) == c as nat);
            assert(time_digits(t).len() > 0);
            assert(c as nat <= i64::MAX);
            assert(parse_time(t) == Some(FindTime::Lower((c as nat) as i64)));
            assert((c as nat) as i64 == c);
        },
    }
}

} // verus!
