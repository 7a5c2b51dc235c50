//! The trusted boundary to the `regex` crate.
//!
//! A compiled `regex::Regex` is opaque to the verifier. `regex_pattern`
//! names the pattern a regex was built from, and `regex_accepts` names the
//! answer of a match test, a function of the pattern and the line alone.
//! Everything the engine proves about pattern-located edits is stated over
//! these two names.
use vstd::prelude::*;

verus! {

#[verifier::external_type_specification]
#[verifier::external_body]
pub struct ExRegex(regex::Regex);

/// The pattern that a compiled regular expression was built from.
pub uninterp spec fn regex_pattern(re: regex::Regex) -> Seq<char>;

/// Whether `pattern` compiles as a regular expression (well-formed and
/// within the default size limit).
pub uninterp spec fn pattern_valid(pattern: Seq<char>) -> bool;

/// Whether the regular expression `pattern` matches anywhere in `line`.
pub uninterp spec fn regex_accepts(pattern: Seq<char>, line: Seq<char>) -> bool;

/// Relies on `regex::Regex::new`: compilation succeeds or fails as a
/// function of the pattern alone (the default configuration is fixed);
/// on success the compiled value holds exactly the given pattern, and a
/// malformed pattern (or one over the default size limit) is reported as
/// an error instead.
#[verifier::external_body]
pub(crate) fn compile_pattern(pattern: &str) -> (r: Option<regex::Regex>)
    ensures
        r is Some <==> pattern_valid(pattern@),
        r is Some ==> regex_pattern(r->Some_0) == pattern@,
{
    regex::Regex::new(pattern).ok()
}

/// Relies on `regex::Regex::is_match`: true exactly when the compiled
/// pattern matches somewhere in the line; the answer depends on the pattern
/// and the line alone.
#[verifier::external_body]
pub(crate) fn line_matches(re: &regex::Regex, line: &String) -> (r: bool)
    ensures
        r == regex_accepts(regex_pattern(*re), line@),
{
    re.is_match(line.as_str())
}

} // verus!
