//! Glob and regular-expression patterns. The `glob` and `regex` crates
//! decide what a pattern means; the library holds patterns as text and
//! asks them.

use vstd::prelude::*;

verus! {

/// `glob::PatternError`, handed back to callers as it comes.
#[verifier::external_type_specification]
#[verifier::external_body]
pub struct ExPatternError(glob::PatternError);

/// Whether `glob::Pattern::new` accepts the text as a pattern, on the
/// platform the crate is built for.
pub uninterp spec fn glob_compiles(pattern: Seq<char>) -> bool;

/// Whether the pattern compiled from `pattern` matches `text`, as
/// `glob::Pattern::matches` decides it on the platform the crate is built
/// for.
pub uninterp spec fn glob_matches(pattern: Seq<char>, text: Seq<char>) -> bool;

/// Whether `regex::Regex::new` accepts the text as an expression.
pub uninterp spec fn regex_compiles(pattern: Seq<char>) -> bool;

/// Whether the expression compiled from `pattern` matches somewhere in
/// `text`, as `regex::Regex::is_match` decides it.
pub uninterp spec fn regex_matches(pattern: Seq<char>, text: Seq<char>) -> bool;

/// A usable glob that matches the text.
pub open spec fn glob_accepts(pattern: Seq<char>, text: Seq<char>) -> bool {
    glob_compiles(pattern) && glob_matches(pattern, text)
}

/// A usable regular expression that matches somewhere in the text.
pub open spec fn regex_accepts(pattern: Seq<char>, text: Seq<char>) -> bool {
    regex_compiles(pattern) && regex_matches(pattern, text)
}

/// Calls `glob::Pattern::new` and keeps only whether it succeeded: `Ok`
/// exactly for the texts that compile, else the crate's own error.
#[verifier::external_body]
pub(crate) fn glob_check(pattern: &str) -> (r: Result<(), glob::PatternError>)
    ensures
        r is Ok <==> glob_compiles(pattern@),
{
    glob::Pattern::new(pattern).map(|_| ())
}

/// Compiles the pattern with `glob::Pattern::new` and asks
/// `glob::Pattern::matches`; a text that does not compile matches nothing.
#[verifier::external_body]
pub(crate) fn glob_match(pattern: &str, text: &str) -> (r: bool)
    ensures
        r == (glob_compiles(pattern@) && glob_matches(pattern@, text@)),
{
    glob::Pattern::new(pattern).map(|p| p.matches(text)).unwrap_or(false)
}

/// Calls `regex::Regex::new` and keeps only whether it succeeded.
#[verifier::external_body]
pub(crate) fn regex_check(pattern: &str) -> (r: bool)
    ensures
        r == regex_compiles(pattern@),
{
    regex::Regex::new(pattern).is_ok()
}

/// Compiles the expression with `regex::Regex::new` and asks
/// `regex::Regex::is_match`; a text that does not compile matches nothing.
#[verifier::external_body]
pub(crate) fn regex_match(pattern: &str, text: &str) -> (r: bool)
    ensures
        r == (regex_compiles(pattern@) && regex_matches(pattern@, text@)),
{
    regex::Regex::new(pattern).map(|re| re.is_match(text)).unwrap_or(false)
}

/// Whether the text is a usable glob.
pub fn is_valid_glob(pattern: &str) -> (r: bool)
    ensures
        r == glob_compiles(pattern@),
{
    glob_check(pattern).is_ok()
}

/// Whether the text is a usable regular expression.
pub fn is_valid_regex(pattern: &str) -> (r: bool)
    ensures
        r == regex_compiles(pattern@),
{
    regex_check(pattern)
}

} // verus!
