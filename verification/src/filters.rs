//! The comment filter and the false-positive filter.
//!
//! The comment filter is a deliberate single-line heuristic: it does not
//! track block-comment state across lines, so a line inside a `/* ... */`
//! block that does not itself start with `*` or `/*` is still evaluated.
use vstd::prelude::*;
use crate::pattern::{pattern_ok, regex_is_match, regex_match};
use crate::text::{
    contains_char, contains_seq, eq_lower, starts_with, str_contains, str_contains_char, str_eq,
    str_starts_with, to_lower,
};

verus! {

/// The extensions whose files get comment filtering at all.
pub open spec fn comment_gated_ext(ext_lower: Seq<char>) -> bool {
    ext_lower == "rs"@ || ext_lower == "c"@ || ext_lower == "cpp"@ || ext_lower == "h"@
        || ext_lower == "hpp"@
}

/// A trimmed line is comment-only when its extension is comment-gated and it
/// starts with `//`, `/*` or `*`.
pub open spec fn is_comment_line_spec(line: Seq<char>, ext_lower: Seq<char>) -> bool {
    comment_gated_ext(ext_lower) && (starts_with(line, "//"@) || starts_with(line, "/*"@)
        || starts_with(line, "*"@))
}

/// Decide whether a trimmed line is comment-only for this extension.
pub fn is_comment_line(line: &str, extension: &str) -> (r: bool)
    ensures
        r == is_comment_line_spec(line@, to_lower(extension@)),
{
    let gated = eq_lower(extension, "rs") || eq_lower(extension, "c") || eq_lower(
        extension,
        "cpp",
    ) || eq_lower(extension, "h") || eq_lower(extension, "hpp");
    if !gated {
        return false;
    }
    str_starts_with(line, "//") || str_starts_with(line, "/*") || str_starts_with(line, "*")
}

/// The pattern that recognizes an IPv4-shaped token; a line holding one is
/// never reported as a magic number. No numeric-range validation is done.
pub open spec fn ip_pattern() -> Seq<char> {
    r"\b\d{1,3}\.\d{1,3}\.\d{1,3}\.\d{1,3}\b"@
}

/// Rule-specific suppression of a raw pattern match. Only `magic-number`
/// has suppressions: array-initializer brackets, version-like substrings,
/// and IPv4-shaped tokens.
pub open spec fn suppressed_spec(rule_name: Seq<char>, line: Seq<char>) -> bool {
    rule_name == "magic-number"@ && ((contains_char(line, '[') && contains_char(line, ']'))
        || contains_seq(line, "version"@) || contains_seq(line, "v1."@) || contains_seq(
        line,
        "v0."@,
    ) || (pattern_ok(ip_pattern()) && regex_match(ip_pattern(), line)))
}

/// Decide whether a raw match of the named rule on this line is a known
/// false positive and must be vetoed.
pub fn is_false_positive(line: &str, rule_name: &str) -> (r: bool)
    ensures
        r == suppressed_spec(rule_name@, line@),
{
    if !str_eq(rule_name, "magic-number") {
        return false;
    }
    if str_contains_char(line, '[') && str_contains_char(line, ']') {
        return true;
    }
    if str_contains(line, "version") || str_contains(line, "v1.") || str_contains(line, "v0.") {
        return true;
    }
    match regex_is_match(r"\b\d{1,3}\.\d{1,3}\.\d{1,3}\.\d{1,3}\b", line) {
        Some(b) => b,
        None => false,
    }
}

} // verus!
