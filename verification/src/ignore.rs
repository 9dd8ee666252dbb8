//! The ignore policy: substring-based exclusion of filesystem entries,
//! combining built-in system directories with user-supplied substrings.
use vstd::prelude::*;
use crate::text::{contains_seq, str_contains};

verus! {

/// The built-in exclusions, applied to every entry regardless of the
/// user-supplied patterns.
pub open spec fn builtin_ignored(path: Seq<char>) -> bool {
    contains_seq(path, "/target/"@) || contains_seq(path, "/.git/"@) || contains_seq(
        path,
        "/node_modules/"@,
    ) || contains_seq(path, "/build/"@)
}

/// An entry is ignored when any built-in or user pattern occurs in its path
/// as a plain substring.
pub open spec fn ignored_spec(path: Seq<char>, patterns: Seq<Seq<char>>) -> bool {
    builtin_ignored(path) || exists|i: int|
        0 <= i < patterns.len() && contains_seq(path, patterns[i])
}

/// Decide whether a filesystem entry must be excluded from scanning.
pub fn should_ignore(path: &str, ignore_patterns: &Vec<String>) -> (r: bool)
    ensures
        r == ignored_spec(path@, ignore_patterns@.map_values(|p: String| p@)),
{
    let ghost pv = ignore_patterns@.map_values(|p: String| p@);
    if str_contains(path, "/target/") || str_contains(path, "/.git/") || str_contains(
        path,
        "/node_modules/",
    ) || str_contains(path, "/build/") {
        return true;
    }
    let n = ignore_patterns.len();
    let mut i: usize = 0;
    while i < n
        invariant
            n == ignore_patterns@.len(),
            pv == ignore_patterns@.map_values(|p: String| p@),
            0 <= i <= n,
            forall|j: int| 0 <= j < i ==> !contains_seq(path@, pv[j]),
        decreases n - i,
    {
        if str_contains(path, ignore_patterns[i].as_str()) {
            proof {
                assert(pv[i as int] == ignore_patterns@[i as int]@);
                assert(contains_seq(path@, pv[i as int]));
            }
            return true;
        }
        i = i + 1;
    }
    false
}

/// The ignore policy is monotonic: an entry ignored under some user patterns
/// stays ignored when one more pattern is added, so adding a pattern can
/// only narrow the set of scanned files; and the built-in exclusions apply
/// whatever the user patterns are.
pub proof fn lemma_ignore_monotonic(path: Seq<char>, patterns: Seq<Seq<char>>, extra: Seq<char>)
    ensures
        ignored_spec(path, patterns) ==> ignored_spec(path, patterns.push(extra)),
        builtin_ignored(path) ==> ignored_spec(path, patterns),
{
    if ignored_spec(path, patterns) && !builtin_ignored(path) {
        let i = choose|i: int| 0 <= i < patterns.len() && contains_seq(path, patterns[i]);
        assert(patterns.push(extra)[i] == patterns[i]);
    }
}

} // verus!
