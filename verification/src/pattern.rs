//! The filename filter: a regular-expression pattern.
//!
//! The engine stores the pattern string it was configured with; validity is
//! established once at construction, and matching goes through the regex
//! crate.  What a pattern accepts is not restated here: the names `regex_ok`
//! and `regex_match` stand for the crate's own answers, which depend on the
//! pattern and the probed text alone.

use vstd::prelude::*;

verus! {

/// Whether the regex crate accepts `pattern` as a valid regular expression.
/// Names the success of `regex::Regex::new`, a function of the pattern alone.
pub uninterp spec fn regex_ok(pattern: Seq<char>) -> bool;

/// Whether `pattern`, as a compiled regular expression, matches anywhere in
/// `text`.  Names the result of `regex::Regex::is_match`, a function of the
/// two strings alone.
pub uninterp spec fn regex_match(pattern: Seq<char>, text: Seq<char>) -> bool;

#[verifier::external_type_specification]
#[verifier::external_body]
pub struct ExRegexError(regex::Error);

/// Relies on `regex::Regex::new`: compilation succeeds exactly on the
/// patterns the regex crate accepts, and depends on nothing but the pattern.
#[verifier::external_body]
pub(crate) fn regex_compile_check(pattern: &str) -> (r: Result<(), regex::Error>)
    ensures
        r is Ok <==> regex_ok(pattern@),
{
    match regex::Regex::new(pattern) {
        Ok(_) => Ok(()),
        Err(e) => Err(e),
    }
}

/// Relies on `regex::Regex::new` and `regex::Regex::is_match`: the pattern
/// is compiled afresh and matched against `text`, so the result is a
/// function of the two strings alone.  A pattern the crate rejects matches
/// nothing.
#[verifier::external_body]
pub(crate) fn regex_matches(pattern: &str, text: &str) -> (b: bool)
    ensures
        regex_ok(pattern@) ==> b == regex_match(pattern@, text@),
        !regex_ok(pattern@) ==> b == false,
{
    match regex::Regex::new(pattern) {
        Ok(re) => re.is_match(text),
        Err(_) => false,
    }
}

} // verus!
