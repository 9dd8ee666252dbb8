use code_analyze::diagnostics::Diagnostic;
use code_analyze::matcher::analyze_content;
use code_analyze::report::{render_compact, render_results, render_text, OutputFormat};
use code_analyze::rules::get_text_rules;
use code_analyze::severity::Severity;

fn info_diag() -> Diagnostic {
    Diagnostic {
        file: String::from("path/to/file.rs"),
        line: 12,
        message: String::from("Found a TODO comment"),
        severity: Severity::Info,
        rule_name: String::from("rust-todo"),
        code_snippet: String::from("x"),
    }
}

#[test]
fn compact_format_of_one_info_diagnostic() {
    let out = render_compact(&vec![info_diag()]);
    assert_eq!(out, "path/to/file.rs:12:I: rust-todo - Found a TODO comment\n");
}

#[test]
fn compact_letters_for_all_severities() {
    let rules = get_text_rules();
    let r = analyze_content("m.c", "c", &rules, "strcpy(a, b);\np = malloc(n);\nprintf(m);\n");
    let out = render_compact(&r);
    let expected = "m.c:1:E: c-unsafe-function - Use of an unsafe function\nm.c:2:W: c-malloc-without-free - malloc without a check for free\nm.c:3:I: c-printf-format - Use of printf instead of fprintf/std::cout\n";
    assert_eq!(out, expected);
}

#[test]
fn text_format_of_empty_results() {
    let empty: Vec<Diagnostic> = Vec::new();
    assert_eq!(render_text(&empty), "No problems found\n");
}

#[test]
fn text_format_blocks_and_counts() {
    let out = render_text(&vec![info_diag()]);
    let expected = "Analysis results:\n==================\n\nINFO: path/to/file.rs:12\n  Rule: rust-todo\n  Message: Found a TODO comment\n  Code: x\n\nStatistics:\n  Errors: 0\n  Warnings: 0\n  Infos: 1\n  Total: 1\n";
    assert_eq!(out, expected);
}

#[test]
fn text_counts_each_severity() {
    let rules = get_text_rules();
    let r = analyze_content("m.c", "c", &rules, "strcpy(a, b);\np = malloc(n);\nprintf(m);\n");
    let out = render_text(&r);
    assert!(out.ends_with(
        "Statistics:\n  Errors: 1\n  Warnings: 1\n  Infos: 1\n  Total: 3\n"
    ));
}

#[test]
fn render_results_dispatches_on_format() {
    let v = vec![info_diag()];
    assert_eq!(render_results(&v, OutputFormat::Compact), render_compact(&v));
    assert_eq!(render_results(&v, OutputFormat::Text), render_text(&v));
}

#[test]
fn multi_digit_line_numbers_render_in_decimal() {
    let mut content = String::new();
    for _ in 0..104 {
        content.push('\n');
    }
    content.push_str("let x = v.unwrap();\n");
    let rules = get_text_rules();
    let r = analyze_content("a.rs", "rs", &rules, &content);
    assert_eq!(r.len(), 1);
    assert_eq!(r[0].line, 105);
    let out = render_compact(&r);
    assert!(out.starts_with("a.rs:105:W: rust-unwrap"));
}
