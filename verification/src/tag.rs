//! The tag filter: a `key:value` literal, both sides non-empty words,
//! anchored at the end of the string.

use vstd::prelude::*;
use vstd::string::StrSliceExecFns;

use crate::error::FindError;
use crate::scan::is_ascii_digit;

verus! {

/// A key/value pair of object metadata, as set by the tag action or matched
/// by the listing with tags.
#[derive(Debug, Clone, PartialEq)]
pub struct FindTag {
    pub key: String,
    pub value: String,
}

/// Whether `c` is an ASCII word character: a letter, digit or underscore.
pub open spec fn is_ascii_word_char(c: char) -> bool {
    is_ascii_digit(c) || ('a' <= c && c <= 'z') || ('A' <= c && c <= 'Z') || c == '_'
}

/// Whether the regex engine's `\w` class holds the non-ASCII character
/// `c`: the Unicode word characters beyond ASCII.
pub uninterp spec fn unicode_word(c: char) -> bool;

/// Whether `c` is a word character as the regex engine classifies it: on
/// ASCII exactly letters, digits and underscore, beyond ASCII the Unicode
/// word characters.
pub open spec fn is_word_char(c: char) -> bool {
    if (c as int) < 128 {
        is_ascii_word_char(c)
    } else {
        unicode_word(c)
    }
}

/// Relies on regex::Regex::new and regex::Regex::is_match with the fixed
/// pattern `^\w$`: the `\w` class holds every Unicode word character, on
/// ASCII exactly letters, digits and underscore, and membership depends on
/// the character alone.
#[verifier::external_body]
fn is_word_char_exec(c: char) -> (r: bool)
    ensures
        r == is_word_char(c),
        c as int >= 128 ==> r == unicode_word(c),
{
    let mut buf = [0u8; 4];
    match regex::Regex::new(r"^\w$") {
        Ok(re) => re.is_match(c.encode_utf8(&mut buf)),
        Err(_) => false,
    }
}

/// The position of the last `:` in `t`, or -1 when there is none.
pub open spec fn last_colon(t: Seq<char>) -> int
    decreases t.len(),
{
    if t.len() == 0 {
        -1
    } else if t.last() == ':' {
        t.len() - 1
    } else {
        last_colon(t.drop_last())
    }
}

/// `last_colon` stays within bounds.
pub proof fn lemma_last_colon_bounds(t: Seq<char>)
    ensures
        -1 <= last_colon(t) < t.len(),
    decreases t.len(),
{
    if t.len() > 0 && t.last() != ':' {
        lemma_last_colon_bounds(t.drop_last());
    }
}

/// Without a `:` at or after `i`, the last `:` lies before `i`.
pub proof fn lemma_last_colon_below(t: Seq<char>, i: int)
    requires
        0 <= i <= t.len(),
        forall|m: int| i <= m < t.len() ==> t[m] != ':',
    ensures
        last_colon(t) < i,
    decreases t.len(),
{
    lemma_last_colon_bounds(t);
    if i < t.len() {
        assert(t.last() != ':');
        lemma_last_colon_below(t.drop_last(), i);
    }
}

/// A `:` at `p` puts the last `:` at or after `p`.
pub proof fn lemma_last_colon_at_least(t: Seq<char>, p: int)
    requires
        0 <= p < t.len(),
        t[p] == ':',
    ensures
        last_colon(t) >= p,
    decreases t.len(),
{
    if t.last() != ':' {
        assert(p < t.len() - 1);
        lemma_last_colon_at_least(t.drop_last(), p);
    }
}

/// The start of the maximal run of word characters that ends just before
/// position `j`.
pub open spec fn word_run_start(t: Seq<char>, j: int) -> int
    recommends
        0 <= j <= t.len(),
    decreases j,
{
    if 0 < j <= t.len() && is_word_char(t[j - 1]) {
        word_run_start(t, j - 1)
    } else {
        j
    }
}

/// Whether `t` contains a `:` at all.
pub open spec fn has_colon(t: Seq<char>) -> bool {
    last_colon(t) >= 0
}

/// Every character of `u` is a word character.
pub open spec fn all_word(u: Seq<char>) -> bool {
    forall|i: int| 0 <= i < u.len() ==> is_word_char(u[i])
}

/// The value of a tag literal: everything after the last `:`.
pub open spec fn tag_value(t: Seq<char>) -> Seq<char>
    recommends
        has_colon(t),
{
    t.subrange(last_colon(t) + 1, t.len() as int)
}

/// The key of a tag literal: the maximal word run just before the last `:`.
pub open spec fn tag_key(t: Seq<char>) -> Seq<char>
    recommends
        has_colon(t),
{
    t.subrange(word_run_start(t, last_colon(t)), last_colon(t))
}

/// Whether the tag value is a non-empty word.
pub open spec fn tag_value_ok(t: Seq<char>) -> bool {
    tag_value(t).len() > 0 && all_word(tag_value(t))
}

/// Whether the tag key is non-empty.
pub open spec fn tag_key_ok(t: Seq<char>) -> bool {
    tag_key(t).len() > 0
}

/// Whether position `i` of `s` holds a word character.
fn is_word_at(s: &str, i: usize) -> (r: bool)
    requires
        i < s@.len(),
    ensures
        r == is_word_char(s@[i as int]),
{
    is_word_char_exec(s.get_char(i))
}

/// The start of the maximal word run of `s` that ends just before
/// position `j`.
fn find_word_run_start(s: &str, j: usize) -> (k: usize)
    requires
        j <= s@.len(),
    ensures
        k <= j,
        k as int == word_run_start(s@, j as int),
{
    let mut k: usize = j;
    while k > 0 && is_word_at(s, k - 1)
        invariant
            k <= j <= s@.len(),
            word_run_start(s@, j as int) == word_run_start(s@, k as int),
        decreases k,
    {
        k = k - 1;
    }
    k
}

impl FindTag {
    /// Parses a `key:value` tag literal anchored at the end of `s`: the
    /// value is everything after the last `:` and must be a non-empty word,
    /// the key is the maximal word run just before that `:` and must be
    /// non-empty.
    ///
    /// The error tells apart a missing separator, a bad value and a bad key,
    /// in that order of checking.
    pub fn from_str(s: &str) -> (r: Result<FindTag, FindError>)
        ensures
            !has_colon(s@) ==> r == Err::<FindTag, FindError>(FindError::TagParseError),
            has_colon(s@) && !tag_value_ok(s@) ==> r == Err::<FindTag, FindError>(
                FindError::TagValueParseError,
            ),
            has_colon(s@) && tag_value_ok(s@) && !tag_key_ok(s@) ==> r == Err::<FindTag, FindError>(
                FindError::TagKeyParseError,
            ),
            has_colon(s@) && tag_value_ok(s@) && tag_key_ok(s@) ==> (r matches Ok(g) && g.key@
                == tag_key(s@) && g.value@ == tag_value(s@)),
    {
        let ghost t = s@;
        let n = s.unicode_len();
        let mut i: usize = n;
        while i > 0 && s.get_char(i - 1) != ':'
            invariant
                i <= n,
                n == t.len(),
                t == s@,
                forall|m: int| i <= m < t.len() ==> t[m] != ':',
            decreases i,
        {
            i = i - 1;
        }
        if i == 0 {
            proof {
                lemma_last_colon_below(t, 0);
            }
            return Err(FindError::TagParseError);
        }
        let p = i - 1;
        proof {
            lemma_last_colon_below(t, p as int + 1);
            lemma_last_colon_at_least(t, p as int);
            assert(last_colon(t) == p as int);
        }
        if p + 1 == n {
            assert(tag_value(t).len() == 0);
            return Err(FindError::TagValueParseError);
        }
        let mut v: usize = p + 1;
        while v < n && is_word_at(s, v)
            invariant
                p as nat + 1 <= v <= n,
                n == t.len(),
                t == s@,
                forall|m: int| p as int + 1 <= m < v ==> is_word_char(t[m]),
            decreases n - v,
        {
            v = v + 1;
        }
        if v < n {
            assert(!is_word_char(tag_value(t)[v - (p as int + 1)]));
            return Err(FindError::TagValueParseError);
        }
        assert(all_word(tag_value(t))) by {
            assert(forall|m: int|
                0 <= m < tag_value(t).len() ==> tag_value(t)[m] == t[m + last_colon(t) + 1]);
        }
        let k = find_word_run_start(s, p);
        if k == p {
            assert(tag_key(t).len() == 0);
            return Err(FindError::TagKeyParseError);
        }
        let key = s.substring_char(k, p).to_owned();
        let value = s.substring_char(p + 1, n).to_owned();
        Ok(FindTag { key, value })
    }
}

} // verus!
