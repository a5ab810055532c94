//! The storage path type: a bucket plus an optional key prefix, parsed from a
//! `s3://bucket[/prefix]` URL.

use vstd::prelude::*;
use vstd::string::StrSliceExecFns;

use crate::error::FindError;

verus! {

/// A validated storage location: a non-empty bucket name and, when the URL
/// carries one, the key prefix to scope the walk to.
///
/// `prefix` distinguishes a trailing slash from its absence: `s3://b/` gives
/// `Some("")`, `s3://b` gives `None`.
#[derive(Debug, Clone, PartialEq)]
pub struct S3path {
    pub bucket: String,
    pub prefix: Option<String>,
}

/// The position of the first `/` in `t` at or after `from`, or `t.len()`
/// when there is none.
pub open spec fn find_slash(t: Seq<char>, from: int) -> int
    recommends
        0 <= from <= t.len(),
    decreases t.len() - from,
{
    if from < 0 || from >= t.len() {
        t.len() as int
    } else if t[from] == '/' {
        from
    } else {
        find_slash(t, from + 1)
    }
}

/// Whether `t` starts with the `s3://` scheme.
pub open spec fn path_has_scheme(t: Seq<char>) -> bool {
    t.len() >= 5 && t[0] == 's' && t[1] == '3' && t[2] == ':' && t[3] == '/' && t[4] == '/'
}

/// Whether `t` is a well-formed storage URL: the scheme followed by a
/// non-empty bucket segment.
pub open spec fn path_valid(t: Seq<char>) -> bool {
    path_has_scheme(t) && t.len() > 5 && t[5] != '/'
}

/// The bucket segment of a well-formed storage URL.
pub open spec fn parsed_bucket(t: Seq<char>) -> Seq<char> {
    t.subrange(5, find_slash(t, 5))
}

/// The prefix segment of a well-formed storage URL: absent without a slash
/// after the bucket, otherwise the characters between that slash and the
/// next one (or the end).
pub open spec fn parsed_prefix(t: Seq<char>) -> Option<Seq<char>> {
    let b = find_slash(t, 5);
    if b == t.len() {
        None
    } else {
        Some(t.subrange(b + 1, find_slash(t, b + 1)))
    }
}

/// `find_slash` stays within bounds and is indeed the first slash.
pub proof fn lemma_find_slash(t: Seq<char>, from: int)
    requires
        0 <= from <= t.len(),
    ensures
        from <= find_slash(t, from) <= t.len(),
        forall|i: int| from <= i < find_slash(t, from) ==> t[i] != '/',
        find_slash(t, from) < t.len() ==> t[find_slash(t, from)] == '/',
    decreases t.len() - from,
{
    if from < t.len() && t[from] != '/' {
        lemma_find_slash(t, from + 1);
    }
}

/// The first `/` of `s` at or after `from`, or the length of `s`.
fn find_slash_from(s: &str, from: usize) -> (r: usize)
    requires
        from <= s@.len(),
    ensures
        r as int == find_slash(s@, from as int),
        from <= r <= s@.len(),
{
    proof {
        lemma_find_slash(s@, from as int);
    }
    let n = s.unicode_len();
    let mut i: usize = from;
    while i < n && s.get_char(i) != '/'
        invariant
            from <= i <= n,
            n == s@.len(),
            find_slash(s@, from as int) == find_slash(s@, i as int),
        decreases n - i,
    {
        i = i + 1;
    }
    i
}

impl S3path {
    /// Parses a `s3://bucket[/prefix]` URL.
    ///
    /// Succeeds exactly on strings that start with `s3://` followed by a
    /// non-empty bucket segment; the bucket then runs to the next `/` and
    /// the prefix, when a slash follows the bucket, to the one after it.
    pub fn from_str(s: &str) -> (r: Result<S3path, FindError>)
        ensures
            r is Ok <==> path_valid(s@),
            r matches Ok(p) ==> p.bucket@ == parsed_bucket(s@) && p.bucket@.len() > 0,
            r matches Ok(p) ==> (p.prefix is Some <==> parsed_prefix(s@) is Some),
            r matches Ok(p) ==> (p.prefix matches Some(q) ==> parsed_prefix(s@) == Some(q@)),
            r matches Err(e) ==> e == FindError::S3Parse,
    {
        let n = s.unicode_len();
        if n <= 5 {
            return Err(FindError::S3Parse);
        }
        if s.get_char(0) != 's' || s.get_char(1) != '3' || s.get_char(2) != ':' || s.get_char(3)
            != '/' || s.get_char(4) != '/' {
            return Err(FindError::S3Parse);
        }
        if s.get_char(5) == '/' {
            return Err(FindError::S3Parse);
        }
        let b = find_slash_from(s, 5);
        let bucket = s.substring_char(5, b).to_owned();
        let prefix = if b == n {
            None
        } else {
            let p = find_slash_from(s, b + 1);
            Some(s.substring_char(b + 1, p).to_owned())
        };
        Ok(S3path { bucket, prefix })
    }
}

} // verus!
