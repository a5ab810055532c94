//! Character classes and decimal numerals shared by the size, time and tag
//! grammars: the decimal-digit class of the regex engine, runs of it, the
//! numeric value of ASCII digit runs, and a canonical decimal rendering used
//! to state round-trip laws.

use vstd::prelude::*;
use vstd::string::StrSliceExecFns;

verus! {

/// Whether `c` is an ASCII decimal digit.
pub open spec fn is_ascii_digit(c: char) -> bool {
    '0' <= c && c <= '9'
}

/// Whether the regex engine's `\d` class holds the non-ASCII character `c`:
/// the Unicode decimal digits beyond `0`-`9`.
pub uninterp spec fn unicode_digit(c: char) -> bool;

/// Whether `c` is a decimal digit as the regex engine classifies it: on
/// ASCII exactly `0`-`9`, beyond ASCII the Unicode decimal digits.
pub open spec fn is_digit_char(c: char) -> bool {
    if (c as int) < 128 {
        is_ascii_digit(c)
    } else {
        unicode_digit(c)
    }
}

/// Relies on regex::Regex::new and regex::Regex::is_match with the fixed
/// pattern `^\d$`: the `\d` class holds every Unicode decimal digit, on
/// ASCII exactly `0`-`9`, and membership depends on the character alone.
#[verifier::external_body]
fn is_digit_char_exec(c: char) -> (r: bool)
    ensures
        r == is_digit_char(c),
        c as int >= 128 ==> r == unicode_digit(c),
{
    let mut buf = [0u8; 4];
    match regex::Regex::new(r"^\d$") {
        Ok(re) => re.is_match(c.encode_utf8(&mut buf)),
        Err(_) => false,
    }
}

/// The numeric value of an ASCII digit.
pub open spec fn digit_val(c: char) -> nat
    recommends
        is_ascii_digit(c),
{
    (c as int - '0' as int) as nat
}

/// Whether `c` is an explicit sign of a size or time literal.
pub open spec fn is_sign(c: char) -> bool {
    c == '+' || c == '-'
}

/// The number denoted by a run of ASCII digits, most significant first.
pub open spec fn digits_val(t: Seq<char>) -> nat
    decreases t.len(),
{
    if t.len() == 0 {
        0
    } else {
        digits_val(t.drop_last()) * 10 + digit_val(t.last())
    }
}

/// Every character of `t` is an ASCII digit, so that `digits_val` reads a
/// plain decimal integer from it.
pub open spec fn all_ascii_digits(t: Seq<char>) -> bool {
    forall|i: int| 0 <= i < t.len() ==> is_ascii_digit(t[i])
}

/// The start of the maximal run of decimal digits (the full `\d` class)
/// that ends just before position `j`.
pub open spec fn digit_run_start(t: Seq<char>, j: int) -> int
    recommends
        0 <= j <= t.len(),
    decreases j,
{
    if 0 < j <= t.len() && is_digit_char(t[j - 1]) {
        digit_run_start(t, j - 1)
    } else {
        j
    }
}

/// The digit run ending at `j` starts within bounds, holds digits only, and
/// is maximal: the character just before it, if any, is not a digit.
pub proof fn lemma_digit_run_start(t: Seq<char>, j: int)
    requires
        0 <= j <= t.len(),
    ensures
        0 <= digit_run_start(t, j) <= j,
        forall|i: int| digit_run_start(t, j) <= i < j ==> is_digit_char(t[i]),
        digit_run_start(t, j) > 0 ==> !is_digit_char(t[digit_run_start(t, j) - 1]),
    decreases j,
{
    if 0 < j && is_digit_char(t[j - 1]) {
        lemma_digit_run_start(t, j - 1);
    }
}

/// A run of digits ending just before `j` that cannot be extended to the
/// left starts exactly where `digit_run_start` says.
pub proof fn lemma_digit_run_start_is(t: Seq<char>, j: int, k: int)
    requires
        0 <= k <= j <= t.len(),
        forall|i: int| k <= i < j ==> is_digit_char(t[i]),
        k > 0 ==> !is_digit_char(t[k - 1]),
    ensures
        digit_run_start(t, j) == k,
    decreases j,
{
    if j > k {
        lemma_digit_run_start_is(t, j - 1, k);
    }
}

/// Reading one more digit multiplies the value so far by ten and adds it.
pub proof fn lemma_digits_val_extend(t: Seq<char>, k: int, i: int)
    requires
        0 <= k <= i < t.len(),
    ensures
        digits_val(t.subrange(k, i + 1)) == digits_val(t.subrange(k, i)) * 10 + digit_val(t[i]),
{
    assert(t.subrange(k, i + 1).drop_last() =~= t.subrange(k, i));
    assert(t.subrange(k, i + 1).last() == t[i]);
}

/// Extending a digit run never decreases its value.
pub proof fn lemma_digits_val_grows(t: Seq<char>, k: int, i: int, j: int)
    requires
        0 <= k <= i <= j <= t.len(),
    ensures
        digits_val(t.subrange(k, j)) >= digits_val(t.subrange(k, i)),
    decreases j - i,
{
    if i < j {
        lemma_digits_val_grows(t, k, i, j - 1);
        lemma_digits_val_extend(t, k, j - 1);
    }
}

/// For a positive factor, a product stays within a bound exactly when the
/// multiplicand stays within the bound's quotient.
pub proof fn lemma_mul_within(v: nat, f: nat, m: nat)
    requires
        f > 0,
    ensures
        v * f <= m <==> v <= m / f,
{
    vstd::arithmetic::div_mod::lemma_fundamental_div_mod(m as int, f as int);
    vstd::arithmetic::div_mod::lemma_mod_bound(m as int, f as int);
    vstd::arithmetic::mul::lemma_mul_is_commutative((m / f) as int, f as int);
    if v <= m / f {
        vstd::arithmetic::mul::lemma_mul_inequality(v as int, (m / f) as int, f as int);
    } else {
        vstd::arithmetic::mul::lemma_mul_inequality((m / f + 1) as int, v as int, f as int);
        vstd::arithmetic::mul::lemma_mul_is_distributive_add_other_way(
            f as int,
            (m / f) as int,
            1,
        );
    }
}

/// The ASCII digit with value `d`.
pub open spec fn digit_char(d: nat) -> char
    recommends
        d < 10,
{
    if d == 0 {
        '0'
    } else if d == 1 {
        '1'
    } else if d == 2 {
        '2'
    } else if d == 3 {
        '3'
    } else if d == 4 {
        '4'
    } else if d == 5 {
        '5'
    } else if d == 6 {
        '6'
    } else if d == 7 {
        '7'
    } else if d == 8 {
        '8'
    } else {
        '9'
    }
}

/// The canonical decimal rendering of `n`: no sign, no leading zero except
/// for `n == 0` itself.
pub open spec fn decimal_digits(n: nat) -> Seq<char>
    decreases n,
{
    if n < 10 {
        seq![digit_char(n)]
    } else {
        decimal_digits(n / 10).push(digit_char(n % 10))
    }
}

/// The canonical decimal rendering is a non-empty run of ASCII digits and
/// denotes the number it was made from.
pub proof fn lemma_decimal_digits(n: nat)
    ensures
        decimal_digits(n).len() >= 1,
        forall|i: int| 0 <= i < decimal_digits(n).len() ==> is_ascii_digit(#[trigger] decimal_digits(n)[i]),
        digits_val(decimal_digits(n)) == n,
    decreases n,
{
    if n < 10 {
        let c = digit_char(n);
        assert(decimal_digits(n) =~= seq![c]);
        assert(seq![c].drop_last() =~= Seq::<char>::empty());
        assert(seq![c].last() == c);
        assert(digits_val(seq![c]) == digits_val(Seq::<char>::empty()) * 10 + digit_val(c));
        assert(digit_val(c) == n);
    } else {
        lemma_decimal_digits(n / 10);
        let u = decimal_digits(n / 10);
        let c = digit_char(n % 10);
        assert(decimal_digits(n) =~= u.push(c));
        assert(u.push(c).drop_last() =~= u);
        assert(u.push(c).last() == c);
        assert(digits_val(u.push(c)) == digits_val(u) * 10 + digit_val(c));
        assert(n / 10 * 10 + n % 10 == n);
        assert(forall|i: int|
            0 <= i < u.push(c).len() ==> is_ascii_digit(#[trigger] u.push(c)[i]));
    }
}

/// Whether position `i` of `s` holds an ASCII digit.
pub(crate) fn is_digit_at(s: &str, i: usize) -> (r: bool)
    requires
        i < s@.len(),
    ensures
        r == is_ascii_digit(s@[i as int]),
{
    let c = s.get_char(i);
    c >= '0' && c <= '9'
}

/// Whether position `i` of `s` holds a decimal digit of the full class.
fn is_digit_char_at(s: &str, i: usize) -> (r: bool)
    requires
        i < s@.len(),
    ensures
        r == is_digit_char(s@[i as int]),
{
    is_digit_char_exec(s.get_char(i))
}

/// The start of the maximal decimal-digit run of `s` that ends just before
/// position `j`.
pub(crate) fn find_digit_run_start(s: &str, j: usize) -> (k: usize)
    requires
        j <= s@.len(),
    ensures
        k <= j,
        k as int == digit_run_start(s@, j as int),
{
    let mut k: usize = j;
    while k > 0 && is_digit_char_at(s, k - 1)
        invariant
            k <= j <= s@.len(),
            digit_run_start(s@, j as int) == digit_run_start(s@, k as int),
        decreases k,
    {
        k = k - 1;
    }
    k
}

/// The decimal value of `s[k..j]`, as long as the run holds ASCII digits
/// only and its value does not exceed `limit`.
pub(crate) fn digits_value_up_to(s: &str, k: usize, j: usize, limit: u64) -> (r: Option<u64>)
    requires
        k <= j <= s@.len(),
    ensures
        r is Some <==> all_ascii_digits(s@.subrange(k as int, j as int)) && digits_val(
            s@.subrange(k as int, j as int),
        ) <= limit,
        r is Some ==> r->0 as nat == digits_val(s@.subrange(k as int, j as int)),
{
    let ghost t = s@;
    let ghost run = t.subrange(k as int, j as int);
    let mut acc: u64 = 0;
    let mut i: usize = k;
    assert(t.subrange(k as int, k as int) =~= Seq::<char>::empty());
    while i < j
        invariant
            k <= i <= j <= t.len(),
            t == s@,
            run == t.subrange(k as int, j as int),
            forall|m: int| k <= m < i ==> is_ascii_digit(t[m]),
            acc as nat == digits_val(t.subrange(k as int, i as int)),
            acc <= limit,
        decreases j - i,
    {
        if !is_digit_at(s, i) {
            assert(run[i - k as int] == t[i as int]);
            assert(!all_ascii_digits(run));
            return None;
        }
        let c = s.get_char(i);
        let d = (c as u32 - 48) as u8;
        proof {
            lemma_digits_val_extend(t, k as int, i as int);
        }
        if acc > limit / 10 {
            proof {
                lemma_digits_val_grows(t, k as int, i as int + 1, j as int);
            }
            return None;
        }
        let next = acc * 10;
        if d as u64 > limit - next {
            proof {
                lemma_digits_val_grows(t, k as int, i as int + 1, j as int);
            }
            return None;
        }
        acc = next + d as u64;
        i = i + 1;
    }
    assert(all_ascii_digits(run)) by {
        assert(forall|m: int| 0 <= m < run.len() ==> run[m] == t[m + k]);
    }
    Some(acc)
}

} // verus!
