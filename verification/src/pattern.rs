//! The boundary to the regular-expression engine. Whether a pattern
//! compiles, and whether it matches a haystack, are functions of the two
//! strings alone; the two names below stand for those results.
use vstd::prelude::*;

verus! {

/// Whether `regex::Regex::new` accepts this pattern (under its default
/// configuration and size limit).
pub uninterp spec fn pattern_ok(pattern: Seq<char>) -> bool;

/// Whether the regular expression `pattern` matches anywhere in `line`.
pub uninterp spec fn regex_match(pattern: Seq<char>, line: Seq<char>) -> bool;

/// Relies on `regex::Regex::new` and `regex::Regex::is_match`: compilation
/// succeeds exactly on the patterns the crate accepts, and matching is a
/// pure function of the pattern and the haystack.
#[verifier::external_body]
pub(crate) fn regex_is_match(pattern: &str, line: &str) -> (r: Option<bool>)
    ensures
        r is Some <==> pattern_ok(pattern@),
        r matches Some(b) ==> b == regex_match(pattern@, line@),
{
    match regex::Regex::new(pattern) {
        Ok(re) => Some(re.is_match(line)),
        Err(_) => None,
    }
}

/// Whether a pattern compiles. The catalog is fixed, so a pattern that does
/// not is a defect of the catalog itself, not a runtime error path; this
/// check makes that invariant observable.
pub fn pattern_compiles(pattern: &str) -> (r: bool)
    ensures
        r == pattern_ok(pattern@),
{
    match regex_is_match(pattern, "") {
        Some(_) => true,
        None => false,
    }
}

} // verus!
