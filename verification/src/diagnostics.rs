//! One reported finding: file, 1-based line, rule, severity, message and the
//! trimmed offending line.
use vstd::prelude::*;
use crate::rules::RuleModel;
use crate::severity::Severity;

verus! {

/// A diagnostic record, immutable once created.
#[derive(Debug)]
pub struct Diagnostic {
    pub file: String,
    pub line: usize,
    pub message: String,
    pub severity: Severity,
    pub rule_name: String,
    pub code_snippet: String,
}

/// The mathematical image of a diagnostic.
pub struct DiagModel {
    pub file: Seq<char>,
    pub line: int,
    pub message: Seq<char>,
    pub severity: Severity,
    pub rule_name: Seq<char>,
    pub code_snippet: Seq<char>,
}

impl View for Diagnostic {
    type V = DiagModel;

    open spec fn view(&self) -> DiagModel {
        DiagModel {
            file: self.file@,
            line: self.line as int,
            message: self.message@,
            severity: self.severity,
            rule_name: self.rule_name@,
            code_snippet: self.code_snippet@,
        }
    }
}

impl Clone for Diagnostic {
    fn clone(&self) -> (r: Self)
        ensures
            r@ == self@,
    {
        Diagnostic {
            file: self.file.clone(),
            line: self.line,
            message: self.message.clone(),
            severity: self.severity,
            rule_name: self.rule_name.clone(),
            code_snippet: self.code_snippet.clone(),
        }
    }
}

/// The diagnostic that a rule firing on a line produces.
pub open spec fn mk_diag(file: Seq<char>, lineno: int, rule: RuleModel, snippet: Seq<char>)
    -> DiagModel {
    DiagModel {
        file: file,
        line: lineno,
        message: rule.message,
        severity: rule.severity,
        rule_name: rule.name,
        code_snippet: snippet,
    }
}

} // verus!
