//! The pattern filters: glob, case-insensitive glob and regex strings,
//! compiled fail-fast by the outside matching libraries at parse time.

use vstd::prelude::*;

verus! {

#[verifier::external_type_specification]
#[verifier::external_body]
pub struct ExGlobPattern(glob::Pattern);

#[verifier::external_type_specification]
#[verifier::external_body]
pub struct ExGlobPatternError(glob::PatternError);

#[verifier::external_type_specification]
#[verifier::external_body]
pub struct ExRegex(regex::Regex);

#[verifier::external_type_specification]
#[verifier::external_body]
pub struct ExRegexError(regex::Error);

/// Relies on glob::Pattern's derived Clone, only so that pattern lists can
/// be cloned along with a request; nothing is assumed of the copy.
pub assume_specification[ <glob::Pattern as Clone>::clone ](p: &glob::Pattern) -> glob::Pattern;

/// Relies on regex::Regex's Clone, only so that pattern lists can be cloned
/// along with a request; nothing is assumed of the copy.
pub assume_specification[ <regex::Regex as Clone>::clone ](r: &regex::Regex) -> regex::Regex;

/// Whether the glob library accepts `s` as a well-formed pattern.
pub uninterp spec fn glob_accepts(s: Seq<char>) -> bool;

/// Whether the regex library accepts `s` as a well-formed pattern within
/// its default size limit.
pub uninterp spec fn regex_accepts(s: Seq<char>) -> bool;

/// Relies on glob::Pattern::new: compiling a pattern is a syntax check that
/// depends on the pattern string alone.
#[verifier::external_body]
fn compile_glob(s: &str) -> (r: Result<glob::Pattern, glob::PatternError>)
    ensures
        r is Ok <==> glob_accepts(s@),
{
    glob::Pattern::new(s)
}

/// Relies on regex::Regex::new: compiling with the default builder is a
/// syntax and size check that depends on the pattern string alone.
#[verifier::external_body]
fn compile_regex(s: &str) -> (r: Result<regex::Regex, regex::Error>)
    ensures
        r is Ok <==> regex_accepts(s@),
{
    regex::Regex::new(s)
}

/// A case-sensitive glob pattern, matched against object keys as the glob
/// library compiled it.
pub type NameGlob = glob::Pattern;

/// A glob pattern that the engine must match case-insensitively.
///
/// The distinct type keeps it from ever being mixed with a case-sensitive
/// `NameGlob` downstream.
#[derive(Debug, Clone, PartialEq)]
pub struct InameGlob(pub glob::Pattern);

impl InameGlob {
    /// Compiles a case-insensitive glob pattern; the error of the glob
    /// library is surfaced verbatim.
    pub fn from_str(s: &str) -> (r: Result<InameGlob, glob::PatternError>)
        ensures
            r is Ok <==> glob_accepts(s@),
    {
        match compile_glob(s) {
            Ok(p) => Ok(InameGlob(p)),
            Err(e) => Err(e),
        }
    }
}

/// Compiles a case-sensitive glob pattern; the error of the glob library is
/// surfaced verbatim.
pub fn parse_name_glob(s: &str) -> (r: Result<NameGlob, glob::PatternError>)
    ensures
        r is Ok <==> glob_accepts(s@),
{
    compile_glob(s)
}

/// Compiles a regex pattern; the error of the regex library is surfaced
/// verbatim.
pub fn parse_regex(s: &str) -> (r: Result<regex::Regex, regex::Error>)
    ensures
        r is Ok <==> regex_accepts(s@),
{
    compile_regex(s)
}

} // verus!
