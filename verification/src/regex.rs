//! Matching an import source against a configured pattern.
//!
//! The patterns are regular expressions in the syntax of the `regex` crate,
//! compiled and cached by `swc_core::cached::regex::CachedRegex`. Nothing
//! here is proved of that crate: the two names below stand for what it
//! answers.

use swc_core::cached::regex::CachedRegex;
use vstd::prelude::*;

verus! {

/// Whether `CachedRegex::new` accepts `pattern`.
pub uninterp spec fn regex_compiles(pattern: Seq<char>) -> bool;

/// Whether the regular expression `pattern` matches somewhere in `text`:
/// what `Regex::is_match` answers for the compiled pattern.
pub uninterp spec fn regex_matches(pattern: Seq<char>, text: Seq<char>) -> bool;

/// `CachedRegex::new(pattern)`, reduced to whether it succeeded.
///
/// Trusted: the result is the same for the same pattern, whenever it is
/// asked. The outside function compiles the pattern with `Regex::new`, or
/// finds an earlier compilation of the same string in its cache.
#[verifier::external_body]
pub(crate) fn compiles(pattern: &str) -> (ok: bool)
    ensures
        ok == regex_compiles(pattern@),
{
    CachedRegex::new(pattern).is_ok()
}

/// `Regex::is_match` of the compiled `pattern` on `text`.
///
/// Trusted: the answer depends on the pattern and the text alone. The
/// compiled pattern comes from `CachedRegex::new`, which the precondition
/// says succeeds.
#[verifier::external_body]
pub(crate) fn is_match(pattern: &str, text: &str) -> (found: bool)
    requires
        regex_compiles(pattern@),
    ensures
        found == regex_matches(pattern@, text@),
{
    match CachedRegex::new(pattern) {
        Ok(regex) => regex.is_match(text),
        Err(_) => false,
    }
}

} // verus!
