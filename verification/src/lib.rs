//! A static pattern-matching analyzer: a fixed catalog of per-language
//! textual rules is applied to each source line, yielding diagnostics with
//! a severity, a message and the offending snippet.
pub mod aggregate;
pub mod diagnostics;
pub mod ignore;
pub mod filters;
pub mod language;
pub mod matcher;
pub mod report;
pub mod pattern;
pub mod rules;
pub mod severity;
pub mod text;
