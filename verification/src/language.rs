//! Language classification: a file extension maps to at most one language
//! tag, and a rule declares the tags it applies to.
use vstd::prelude::*;
use crate::text::{eq_lower, to_lower};

verus! {

/// A coarse language tag derived from a file extension.
#[derive(Clone, Copy, Debug, PartialEq, Eq, Structural)]
pub enum Language {
    Rust,
    C,
    Cpp,
}

/// Whether a lower-cased extension belongs to a language tag.
pub open spec fn lang_matches(ext_lower: Seq<char>, lang: Language) -> bool {
    match lang {
        Language::Rust => ext_lower == "rs"@,
        Language::C => ext_lower == "c"@,
        Language::Cpp => ext_lower == "cpp"@ || ext_lower == "cxx"@ || ext_lower == "cc"@
            || ext_lower == "hpp"@,
    }
}

/// Classification of an extension against one language tag; the extension is
/// lower-cased first.
pub fn matches_language(extension: &str, lang: Language) -> (r: bool)
    ensures
        r == lang_matches(to_lower(extension@), lang),
{
    match lang {
        Language::Rust => eq_lower(extension, "rs"),
        Language::C => eq_lower(extension, "c"),
        Language::Cpp => eq_lower(extension, "cpp") || eq_lower(extension, "cxx") || eq_lower(
            extension,
            "cc",
        ) || eq_lower(extension, "hpp"),
    }
}

/// A rule applies to a file when some tag it declares matches the extension.
pub open spec fn rule_applicable(languages: Seq<Language>, ext_lower: Seq<char>) -> bool {
    exists|i: int| 0 <= i < languages.len() && lang_matches(ext_lower, languages[i])
}

/// Whether any of the given tags matches the extension.
pub fn any_language_matches(extension: &str, languages: &Vec<Language>) -> (r: bool)
    ensures
        r == rule_applicable(languages@, to_lower(extension@)),
{
    let n = languages.len();
    let mut i: usize = 0;
    while i < n
        invariant
            n == languages@.len(),
            0 <= i <= n,
            forall|j: int| 0 <= j < i ==> !lang_matches(to_lower(extension@), languages@[j]),
        decreases n - i,
    {
        if matches_language(extension, languages[i]) {
            return true;
        }
        i = i + 1;
    }
    false
}

} // verus!
