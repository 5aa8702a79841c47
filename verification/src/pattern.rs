//! Regular-expression search, done by the `regex` crate.
//!
//! What a pattern matches is not defined here: the two functions below name
//! what the crate answers, and the one executable function is believed to
//! return just that.

use vstd::prelude::*;

verus! {

#[verifier::external_type_specification]
#[verifier::external_body]
pub struct ExRegexError(regex::Error);

/// Whether `regex::Regex::new` accepts `pattern`, with the crate's default
/// limits.
pub uninterp spec fn pattern_compiles(pattern: Seq<char>) -> bool;

/// Whether `regex::Regex::is_match` finds a match of `pattern` anywhere in
/// `haystack`, for a `pattern` that compiles.
pub uninterp spec fn pattern_found_in(pattern: Seq<char>, haystack: Seq<char>) -> bool;

/// Compiles `pattern` with `regex::Regex::new` and asks the resulting regex,
/// with `regex::Regex::is_match`, whether it matches anywhere in `haystack`.
///
/// Believed, not proved: the call fails exactly for the patterns that the
/// crate rejects, and else answers what `is_match` answers. Both depend on
/// the two texts alone.
#[verifier::external_body]
pub(crate) fn search(pattern: &str, haystack: &str) -> (found: Result<bool, regex::Error>)
    ensures
        found is Ok <==> pattern_compiles(pattern@),
        found matches Ok(hit) ==> hit == pattern_found_in(pattern@, haystack@),
{
    match regex::Regex::new(pattern) {
        Ok(compiled) => Ok(compiled.is_match(haystack)),
        Err(error) => Err(error),
    }
}

} // verus!
