//! Severity of a diagnostic, and its textual renderings.
use vstd::prelude::*;

verus! {

/// How serious a finding is. Errors-only filtering keeps only `Error`.
#[derive(Clone, Copy, Debug, PartialEq, Eq, Structural)]
pub enum Severity {
    Error,
    Warning,
    Info,
}

/// The upper-case label of a severity, as the text report shows it.
pub open spec fn severity_label(s: Severity) -> Seq<char> {
    match s {
        Severity::Error => "ERROR"@,
        Severity::Warning => "WARNING"@,
        Severity::Info => "INFO"@,
    }
}

/// The one-letter code of a severity, as the compact report shows it.
pub open spec fn severity_letter(s: Severity) -> char {
    match s {
        Severity::Error => 'E',
        Severity::Warning => 'W',
        Severity::Info => 'I',
    }
}

impl Severity {
    pub fn label(&self) -> (r: &'static str)
        ensures
            r@ == severity_label(*self),
    {
        match self {
            Severity::Error => "ERROR",
            Severity::Warning => "WARNING",
            Severity::Info => "INFO",
        }
    }

    pub fn letter_str(&self) -> (r: &'static str)
        ensures
            r@ == seq![severity_letter(*self)],
    {
        proof {
            reveal_strlit("E");
            reveal_strlit("W");
            reveal_strlit("I");
        }
        let r = match self {
            Severity::Error => "E",
            Severity::Warning => "W",
            Severity::Info => "I",
        };
        proof {
            assert(r@ =~= seq![severity_letter(*self)]);
        }
        r
    }
}

} // verus!
