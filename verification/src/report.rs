//! The reporter: renders diagnostics as text blocks with summary counts, or
//! as one compact line per diagnostic.
use vstd::prelude::*;
use vstd::string::*;
use crate::diagnostics::{DiagModel, Diagnostic};
use crate::severity::{severity_label, severity_letter, Severity};
use crate::text::dec_str;
use crate::text::usize_to_string;

verus! {

/// The two output formats.
#[derive(Clone, Copy, Debug, PartialEq, Eq, Structural)]
pub enum OutputFormat {
    Text,
    Compact,
}

/// One compact report line: `file:line:letter: rule - message`.
pub open spec fn compact_line_spec(d: DiagModel) -> Seq<char> {
    d.file + ":"@ + dec_str(d.line as nat) + ":"@ + seq![severity_letter(d.severity)] + ": "@
        + d.rule_name + " - "@ + d.message + "\n"@
}

/// The compact report: one line per diagnostic, in order.
pub open spec fn render_compact_spec(ds: Seq<DiagModel>) -> Seq<char>
    decreases ds.len(),
{
    if ds.len() == 0 {
        Seq::empty()
    } else {
        render_compact_spec(ds.drop_last()) + compact_line_spec(ds.last())
    }
}

fn compact_line(d: &Diagnostic) -> (out: String)
    ensures
        out@ == compact_line_spec(d@),
{
    let mut out = String::new();
    out.append(d.file.as_str());
    out.append(":");
    let num = usize_to_string(d.line);
    out.append(num.as_str());
    out.append(":");
    out.append(d.severity.letter_str());
    out.append(": ");
    out.append(d.rule_name.as_str());
    out.append(" - ");
    out.append(d.message.as_str());
    out.append("\n");
    proof {
        assert(out@ =~= compact_line_spec(d@));
    }
    out
}

/// Render the compact format.
pub fn render_compact(results: &Vec<Diagnostic>) -> (out: String)
    ensures
        out@ == render_compact_spec(results@.map_values(|d: Diagnostic| d@)),
{
    let ghost dv = results@.map_values(|d: Diagnostic| d@);
    let mut out = String::new();
    let n = results.len();
    let mut i: usize = 0;
    proof {
        assert(dv.subrange(0, 0) =~= Seq::<DiagModel>::empty());
        assert(out@ =~= render_compact_spec(dv.subrange(0, 0)));
    }
    while i < n
        invariant
            n == results@.len(),
            dv == results@.map_values(|d: Diagnostic| d@),
            0 <= i <= n,
            out@ == render_compact_spec(dv.subrange(0, i as int)),
        decreases n - i,
    {
        let line = compact_line(&results[i]);
        out.append(line.as_str());
        proof {
            assert(dv.subrange(0, i as int + 1).drop_last() =~= dv.subrange(0, i as int));
            assert(dv.subrange(0, i as int + 1).last() == dv[i as int]);
        }
        i = i + 1;
    }
    proof {
        assert(dv.subrange(0, n as int) =~= dv);
    }
    out
}

/// How many diagnostics of `ds` have this severity.
pub open spec fn count_severity(ds: Seq<DiagModel>, sev: Severity) -> nat
    decreases ds.len(),
{
    if ds.len() == 0 {
        0
    } else {
        count_severity(ds.drop_last(), sev) + (if ds.last().severity == sev {
            1nat
        } else {
            0nat
        })
    }
}

/// Count the diagnostics of one severity.
pub fn count_with_severity(results: &Vec<Diagnostic>, sev: Severity) -> (n: usize)
    ensures
        n == count_severity(results@.map_values(|d: Diagnostic| d@), sev),
{
    let ghost dv = results@.map_values(|d: Diagnostic| d@);
    let mut n: usize = 0;
    let len = results.len();
    let mut i: usize = 0;
    proof {
        assert(dv.subrange(0, 0) =~= Seq::<DiagModel>::empty());
    }
    while i < len
        invariant
            len == results@.len(),
            dv == results@.map_values(|d: Diagnostic| d@),
            0 <= i <= len,
            n <= i,
            n == count_severity(dv.subrange(0, i as int), sev),
        decreases len - i,
    {
        if results[i].severity == sev {
            n = n + 1;
        }
        proof {
            assert(dv.subrange(0, i as int + 1).drop_last() =~= dv.subrange(0, i as int));
            assert(dv.subrange(0, i as int + 1).last() == dv[i as int]);
        }
        i = i + 1;
    }
    proof {
        assert(dv.subrange(0, len as int) =~= dv);
    }
    n
}

/// One text-format block: severity, file:line, rule, message, snippet, and a
/// blank line.
pub open spec fn text_block_spec(d: DiagModel) -> Seq<char> {
    severity_label(d.severity) + ": "@ + d.file + ":"@ + dec_str(d.line as nat) + "\n  Rule: "@
        + d.rule_name + "\n  Message: "@ + d.message + "\n  Code: "@ + d.code_snippet + "\n\n"@
}

/// The text-format blocks of all diagnostics, in order.
pub open spec fn text_blocks_spec(ds: Seq<DiagModel>) -> Seq<char>
    decreases ds.len(),
{
    if ds.len() == 0 {
        Seq::empty()
    } else {
        text_blocks_spec(ds.drop_last()) + text_block_spec(ds.last())
    }
}

/// The summary: counts of errors, warnings, infos, and the total.
pub open spec fn text_stats_spec(ds: Seq<DiagModel>) -> Seq<char> {
    "Statistics:\n  Errors: "@ + dec_str(count_severity(ds, Severity::Error)) + "\n  Warnings: "@
        + dec_str(count_severity(ds, Severity::Warning)) + "\n  Infos: "@ + dec_str(
        count_severity(ds, Severity::Info),
    ) + "\n  Total: "@ + dec_str(ds.len()) + "\n"@
}

/// The text report: a success line when there is nothing to report, else a
/// header, one block per diagnostic, and the summary counts.
pub open spec fn render_text_spec(ds: Seq<DiagModel>) -> Seq<char> {
    if ds.len() == 0 {
        "No problems found\n"@
    } else {
        "Analysis results:\n==================\n\n"@ + text_blocks_spec(ds) + text_stats_spec(ds)
    }
}

fn text_block(d: &Diagnostic) -> (out: String)
    ensures
        out@ == text_block_spec(d@),
{
    let mut out = String::new();
    out.append(d.severity.label());
    out.append(": ");
    out.append(d.file.as_str());
    out.append(":");
    let num = usize_to_string(d.line);
    out.append(num.as_str());
    out.append("\n  Rule: ");
    out.append(d.rule_name.as_str());
    out.append("\n  Message: ");
    out.append(d.message.as_str());
    out.append("\n  Code: ");
    out.append(d.code_snippet.as_str());
    out.append("\n\n");
    proof {
        assert(out@ =~= text_block_spec(d@));
    }
    out
}

/// Render the text format.
pub fn render_text(results: &Vec<Diagnostic>) -> (out: String)
    ensures
        out@ == render_text_spec(results@.map_values(|d: Diagnostic| d@)),
{
    let ghost dv = results@.map_values(|d: Diagnostic| d@);
    if results.len() == 0 {
        return String::from_str("No problems found\n");
    }
    let mut out = String::from_str("Analysis results:\n==================\n\n");
    let n = results.len();
    let mut i: usize = 0;
    let ghost header = "Analysis results:\n==================\n\n"@;
    proof {
        assert(dv.subrange(0, 0) =~= Seq::<DiagModel>::empty());
        assert(out@ =~= header + text_blocks_spec(dv.subrange(0, 0)));
    }
    while i < n
        invariant
            n == results@.len(),
            n > 0,
            dv == results@.map_values(|d: Diagnostic| d@),
            0 <= i <= n,
            header == "Analysis results:\n==================\n\n"@,
            out@ == header + text_blocks_spec(dv.subrange(0, i as int)),
        decreases n - i,
    {
        let block = text_block(&results[i]);
        out.append(block.as_str());
        proof {
            assert(dv.subrange(0, i as int + 1).drop_last() =~= dv.subrange(0, i as int));
            assert(dv.subrange(0, i as int + 1).last() == dv[i as int]);
            assert((header + text_blocks_spec(dv.subrange(0, i as int))) + text_block_spec(
                dv[i as int],
            ) =~= header + text_blocks_spec(dv.subrange(0, i as int + 1)));
        }
        i = i + 1;
    }
    let errors = count_with_severity(results, Severity::Error);
    let warnings = count_with_severity(results, Severity::Warning);
    let infos = count_with_severity(results, Severity::Info);
    out.append("Statistics:\n  Errors: ");
    let e = usize_to_string(errors);
    out.append(e.as_str());
    out.append("\n  Warnings: ");
    let w = usize_to_string(warnings);
    out.append(w.as_str());
    out.append("\n  Infos: ");
    let f = usize_to_string(infos);
    out.append(f.as_str());
    out.append("\n  Total: ");
    let t = usize_to_string(results.len());
    out.append(t.as_str());
    out.append("\n");
    proof {
        assert(dv.subrange(0, n as int) =~= dv);
        assert(out@ =~= render_text_spec(dv));
    }
    out
}

/// What the report of a list of diagnostics is, in either format.
pub open spec fn render_spec(ds: Seq<DiagModel>, format: OutputFormat) -> Seq<char> {
    match format {
        OutputFormat::Text => render_text_spec(ds),
        OutputFormat::Compact => render_compact_spec(ds),
    }
}

/// Render diagnostics in the chosen format.
pub fn render_results(results: &Vec<Diagnostic>, format: OutputFormat) -> (out: String)
    ensures
        out@ == render_spec(results@.map_values(|d: Diagnostic| d@), format),
{
    match format {
        OutputFormat::Text => render_text(results),
        OutputFormat::Compact => render_compact(results),
    }
}

} // verus!
