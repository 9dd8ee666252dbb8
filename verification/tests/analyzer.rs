use code_analyze::aggregate::filter_errors;
use code_analyze::diagnostics::Diagnostic;
use code_analyze::ignore::should_ignore;
use code_analyze::matcher::analyze_content;
use code_analyze::pattern::pattern_compiles;
use code_analyze::rules::get_text_rules;
use code_analyze::severity::Severity;

fn diags(file: &str, ext: &str, content: &str) -> Vec<Diagnostic> {
    let rules = get_text_rules();
    analyze_content(file, ext, &rules, content)
}

#[test]
fn unwrap_line_yields_one_warning() {
    let r = diags("test.rs", "rs", "    let x = v.unwrap();\n");
    assert_eq!(r.len(), 1);
    assert_eq!(r[0].rule_name, "rust-unwrap");
    assert!(matches!(r[0].severity, Severity::Warning));
    assert_eq!(r[0].line, 1);
    assert_eq!(r[0].code_snippet, "let x = v.unwrap();");
    assert_eq!(r[0].file, "test.rs");
}

#[test]
fn strcpy_line_yields_one_error() {
    let r = diags("main.c", "c", "strcpy(dst, src);\n");
    assert_eq!(r.len(), 1);
    assert_eq!(r[0].rule_name, "c-unsafe-function");
    assert!(matches!(r[0].severity, Severity::Error));
}

#[test]
fn todo_comment_line_is_skipped() {
    let r = diags("test.rs", "rs", "// TODO: fix this later\n");
    assert_eq!(r.len(), 0);
}

#[test]
fn array_initializer_suppresses_magic_number() {
    let r = diags("main.c", "c", "int arr[10] = {1,2,3};\n");
    assert!(r.iter().all(|d| d.rule_name != "magic-number"));
    assert_eq!(r.len(), 0);
}

#[test]
fn magic_number_fires_without_suppression() {
    let r = diags("lib.rs", "rs", "let size = 1024;\n");
    assert_eq!(r.len(), 1);
    assert_eq!(r[0].rule_name, "magic-number");
    assert!(matches!(r[0].severity, Severity::Info));
}

#[test]
fn version_substring_suppresses_magic_number() {
    let r = diags("lib.rs", "rs", "let version = 1024;\n");
    assert_eq!(r.len(), 0);
}

#[test]
fn ip_shaped_token_suppresses_magic_number() {
    let r = diags("conf.c", "c", "addr = 10.0.0.1;\n");
    assert_eq!(r.len(), 0);
}

#[test]
fn expect_call_fires() {
    let r = diags("a.rs", "rs", "let v = f().expect(\"boom\");\n");
    assert_eq!(r.len(), 1);
    assert_eq!(r[0].rule_name, "rust-expect");
}

#[test]
fn unsafe_block_fires() {
    let r = diags("a.rs", "rs", "unsafe { ptr.read() }\n");
    assert_eq!(r.len(), 1);
    assert_eq!(r[0].rule_name, "rust-unsafe-block");
}

#[test]
fn long_line_fires_at_101_chars() {
    let long = "x".repeat(101);
    let r = diags("a.rs", "rs", &long);
    assert_eq!(r.len(), 1);
    assert_eq!(r[0].rule_name, "long-line");
    let short = "x".repeat(99);
    assert_eq!(diags("a.rs", "rs", &short).len(), 0);
}

#[test]
fn line_numbers_are_physical_positions() {
    let content = "fn main() {\n\n    // a comment\n    let x = v.unwrap();\n}\n";
    let r = diags("test.rs", "rs", content);
    assert_eq!(r.len(), 1);
    assert_eq!(r[0].line, 4);
}

#[test]
fn crlf_lines_are_numbered_and_trimmed() {
    let content = "int main() {\r\n    gets(buf);\r\n}\r\n";
    let r = diags("main.c", "c", content);
    assert_eq!(r.len(), 1);
    assert_eq!(r[0].line, 2);
    assert_eq!(r[0].code_snippet, "gets(buf);");
}

#[test]
fn one_line_can_fire_several_rules() {
    let mut line = String::from("let x = v.unwrap(); let y = w.unwrap(); let pad = 60; ");
    line.push_str(&"z".repeat(60));
    let r = diags("a.rs", "rs", &line);
    let names: Vec<&str> = r.iter().map(|d| d.rule_name.as_str()).collect();
    assert!(names.contains(&"rust-unwrap"));
    assert!(names.contains(&"long-line"));
    assert!(names.contains(&"magic-number"));
    assert_eq!(names.iter().filter(|n| **n == "rust-unwrap").count(), 1);
}

#[test]
fn unknown_extension_yields_nothing() {
    let r = diags("notes.txt", "txt", "let x = v.unwrap(); strcpy(a, b);\n");
    assert_eq!(r.len(), 0);
}

#[test]
fn extension_is_lowercased_before_classification() {
    let r = diags("A.RS", "RS", "let x = v.unwrap();\n");
    assert_eq!(r.len(), 1);
    assert_eq!(r[0].rule_name, "rust-unwrap");
}

#[test]
fn cc_extension_gets_c_rules() {
    // `sprintf(` also contains `printf(`, so both rules fire on this line.
    let r = diags("a.cc", "cc", "sprintf(buf, fmt);\n");
    assert_eq!(r.len(), 2);
    assert_eq!(r[0].rule_name, "c-unsafe-function");
    assert_eq!(r[1].rule_name, "c-printf-format");
}

#[test]
fn star_and_block_comment_lines_are_skipped() {
    assert_eq!(diags("a.c", "c", " * strcpy(a, b);\n").len(), 0);
    assert_eq!(diags("a.c", "c", "/* strcpy(a, b);\n").len(), 0);
    // The filter is single-line only: inside an unclosed block comment, a
    // line that does not itself start with a comment marker is still scanned.
    assert_eq!(diags("a.c", "c", "/*\nstrcpy(a, b);\n*/\n").len(), 1);
}

#[test]
fn comment_filter_is_language_gated() {
    // For an extension outside the gated set, a `//` line is still matched.
    assert_eq!(diags("a.txt", "txt", "// strcpy(a, b);\n").len(), 0);
    // ...but nothing applies to txt; for a gated extension it is skipped.
    assert_eq!(diags("a.c", "c", "// strcpy(a, b);\n").len(), 0);
}

#[test]
fn catalog_has_ten_uniquely_named_rules() {
    let rules = get_text_rules();
    assert_eq!(rules.len(), 10);
    let names: Vec<&str> = rules.iter().map(|r| r.name.as_str()).collect();
    assert_eq!(
        names,
        vec![
            "rust-unsafe-block",
            "rust-unwrap",
            "rust-expect",
            "rust-todo",
            "rust-fixme",
            "c-unsafe-function",
            "c-malloc-without-free",
            "c-printf-format",
            "long-line",
            "magic-number",
        ]
    );
    for i in 0..names.len() {
        for j in 0..i {
            assert_ne!(names[i], names[j]);
        }
    }
}

#[test]
fn every_catalog_pattern_compiles() {
    for rule in get_text_rules() {
        assert!(pattern_compiles(rule.pattern.as_str()));
    }
    assert!(!pattern_compiles(r"foo(bar"));
}

#[test]
fn malloc_and_printf_fire_with_their_severities() {
    let r = diags("m.c", "c", "p = malloc(n);\nprintf(msg);\n");
    assert_eq!(r.len(), 2);
    assert_eq!(r[0].rule_name, "c-malloc-without-free");
    assert!(matches!(r[0].severity, Severity::Warning));
    assert_eq!(r[1].rule_name, "c-printf-format");
    assert!(matches!(r[1].severity, Severity::Info));
}

#[test]
fn errors_only_keeps_exactly_the_errors_in_order() {
    let content = "p = malloc(n);\nstrcpy(a, b);\nprintf(msg);\ngets(buf);\n";
    let all = diags("m.c", "c", content);
    assert_eq!(all.len(), 4);
    let errors = filter_errors(&all);
    assert_eq!(errors.len(), 2);
    assert_eq!(errors[0].line, 2);
    assert_eq!(errors[1].line, 4);
    assert!(errors
        .iter()
        .all(|d| matches!(d.severity, Severity::Error)));
}

#[test]
fn scan_is_deterministic_for_equal_input() {
    let content = "let a = b.unwrap();\nstrcpy(x, y);\nlet n = 255;\n";
    let first = diags("same.rs", "rs", content);
    let second = diags("same.rs", "rs", content);
    assert_eq!(first.len(), second.len());
    for (a, b) in first.iter().zip(second.iter()) {
        assert_eq!(a.file, b.file);
        assert_eq!(a.line, b.line);
        assert_eq!(a.message, b.message);
        assert_eq!(a.rule_name, b.rule_name);
        assert_eq!(a.code_snippet, b.code_snippet);
        assert_eq!(a.severity, b.severity);
    }
}

#[test]
fn builtin_directories_are_always_ignored() {
    let none: Vec<String> = Vec::new();
    assert!(should_ignore("proj/target/debug/a.rs", &none));
    assert!(should_ignore("proj/.git/config", &none));
    assert!(should_ignore("web/node_modules/x.c", &none));
    assert!(should_ignore("out/build/gen.cpp", &none));
    assert!(!should_ignore("src/main.rs", &none));
}

#[test]
fn user_patterns_narrow_the_scan() {
    let none: Vec<String> = Vec::new();
    let some = vec![String::from("vendor")];
    let more = vec![String::from("vendor"), String::from("tests")];
    assert!(!should_ignore("src/vendored.rs", &none));
    assert!(should_ignore("src/vendor/lib.rs", &some));
    // Monotonic: everything ignored under `some` stays ignored under `more`.
    assert!(should_ignore("src/vendor/lib.rs", &more));
    assert!(should_ignore("crate/tests/t.rs", &more));
    assert!(!should_ignore("src/main.rs", &more));
    // Built-ins still apply with user patterns present.
    assert!(should_ignore("proj/target/debug/a.rs", &more));
}

#[test]
fn empty_and_blank_lines_produce_nothing() {
    assert_eq!(diags("a.rs", "rs", "").len(), 0);
    assert_eq!(diags("a.rs", "rs", "\n\n   \n\t\n").len(), 0);
}
