//! Trusted interface to the regex engine.
//!
//! The library treats a compiled regex as an opaque value that remembers
//! the pattern it was built from, and treats matching as an uninterpreted
//! function of the pattern and the haystack. Everything proved about
//! filtering and fingerprinting is relative to that function.

use vstd::prelude::*;

verus! {

#[verifier::external_type_specification]
#[verifier::external_body]
pub struct ExRegex(regex::Regex);

/// The pattern string a compiled regex was built from.
pub uninterp spec fn regex_pattern(re: regex::Regex) -> Seq<char>;

/// Whether the pattern matches anywhere in the text: the result of a regex
/// search, a function of the pattern and the haystack alone.
pub uninterp spec fn regex_match(pattern: Seq<char>, text: Seq<char>) -> bool;

/// Whether a pattern string compiles: with fixed (default) options,
/// compilation succeeds or fails as a function of the pattern alone.
pub uninterp spec fn regex_compiles(pat: Seq<char>) -> bool;

/// Relies on `regex::Regex::new` and `regex::Regex::as_str`: compilation
/// succeeds exactly on the well-formed, not-too-big patterns (a function of
/// the pattern string, named `regex_compiles`); a compiled regex keeps the
/// pattern it was built from; failure is an error value, here carried as
/// its display text.
#[verifier::external_body]
pub fn compile_pattern(pat: &str) -> (r: Result<regex::Regex, String>)
    ensures
        r is Ok <==> regex_compiles(pat@),
        r matches Ok(re) ==> regex_pattern(re) == pat@,
{
    regex::Regex::new(pat).map_err(|e| e.to_string())
}

/// Relies on `regex::Regex::is_match`: true exactly when the compiled
/// pattern matches somewhere in the haystack; deterministic in the pattern
/// and the haystack.
#[verifier::external_body]
pub fn regex_is_match(re: &regex::Regex, text: &str) -> (r: bool)
    ensures
        r == regex_match(regex_pattern(*re), text@),
{
    re.is_match(text)
}

} // verus!
