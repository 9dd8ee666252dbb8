//! The fixed rule catalog: each rule is a named pattern with a message, a
//! severity and the set of language tags it applies to.
use vstd::prelude::*;
use vstd::string::*;
use crate::language::Language;
use crate::severity::Severity;

verus! {

/// One rule of the catalog.
pub struct Rule {
    pub name: String,
    pub pattern: String,
    pub message: String,
    pub severity: Severity,
    pub languages: Vec<Language>,
}

/// The mathematical image of a rule.
pub struct RuleModel {
    pub name: Seq<char>,
    pub pattern: Seq<char>,
    pub message: Seq<char>,
    pub severity: Severity,
    pub languages: Seq<Language>,
}

impl View for Rule {
    type V = RuleModel;

    open spec fn view(&self) -> RuleModel {
        RuleModel {
            name: self.name@,
            pattern: self.pattern@,
            message: self.message@,
            severity: self.severity,
            languages: self.languages@,
        }
    }
}

impl Rule {
    pub fn new(
        name: &str,
        pattern: &str,
        message: &str,
        severity: Severity,
        languages: Vec<Language>,
    ) -> (r: Rule)
        ensures
            r@ == (RuleModel {
                name: name@,
                pattern: pattern@,
                message: message@,
                severity,
                languages: languages@,
            }),
    {
        Rule {
            name: String::from_str(name),
            pattern: String::from_str(pattern),
            message: String::from_str(message),
            severity,
            languages,
        }
    }
}

/// No two rules of a catalog share a name.
pub open spec fn unique_rule_names(rules: Seq<RuleModel>) -> bool {
    forall|i: int, j: int| 0 <= i < j < rules.len() ==> rules[i].name != rules[j].name
}

/// The full catalog, as the contracts see it.
pub open spec fn catalog_spec() -> Seq<RuleModel> {
    seq![
        RuleModel {
            name: "rust-unsafe-block"@,
            pattern: r"unsafe\s*\{"@,
            message: "Found an unsafe block"@,
            severity: Severity::Warning,
            languages: seq![Language::Rust],
        },
        RuleModel {
            name: "rust-unwrap"@,
            pattern: r"\.unwrap\(\)"@,
            message: "Use of unwrap() may cause a panic"@,
            severity: Severity::Warning,
            languages: seq![Language::Rust],
        },
        RuleModel {
            name: "rust-expect"@,
            pattern: r"\.expect\([^)]*\)"@,
            message: "Use of expect() may cause a panic"@,
            severity: Severity::Warning,
            languages: seq![Language::Rust],
        },
        RuleModel {
            name: "rust-todo"@,
            pattern: r"//\s*TODO:?\s*.+"@,
            message: "Found a TODO comment"@,
            severity: Severity::Info,
            languages: seq![Language::Rust],
        },
        RuleModel {
            name: "rust-fixme"@,
            pattern: r"//\s*FIXME:?\s*.+"@,
            message: "Found a FIXME comment"@,
            severity: Severity::Info,
            languages: seq![Language::Rust],
        },
        RuleModel {
            name: "c-unsafe-function"@,
            pattern: r"\b(gets|strcpy|sprintf)\s*\("@,
            message: "Use of an unsafe function"@,
            severity: Severity::Error,
            languages: seq![Language::C, Language::Cpp],
        },
        RuleModel {
            name: "c-malloc-without-free"@,
            pattern: r"malloc\s*\("@,
            message: "malloc without a check for free"@,
            severity: Severity::Warning,
            languages: seq![Language::C, Language::Cpp],
        },
        RuleModel {
            name: "c-printf-format"@,
            pattern: r"printf\s*\("@,
            message: "Use of printf instead of fprintf/std::cout"@,
            severity: Severity::Info,
            languages: seq![Language::C, Language::Cpp],
        },
        RuleModel {
            name: "long-line"@,
            pattern: r"^.{100,}$"@,
            message: "Line longer than 100 characters"@,
            severity: Severity::Warning,
            languages: seq![Language::Rust, Language::C, Language::Cpp],
        },
        RuleModel {
            name: "magic-number"@,
            pattern: r"\b(0|-1|1|10|100|1000|255|256|1024|60|3600|24|7|8080|3000|3306)\b(?:$|[^(.]|\.(?:$|[^0-9]))"@,
            message: "Possible magic number - consider a named constant"@,
            severity: Severity::Info,
            languages: seq![Language::Rust, Language::C, Language::Cpp],
        },
    ]
}

fn langs_rust() -> (v: Vec<Language>)
    ensures
        v@ == seq![Language::Rust],
{
    let mut v: Vec<Language> = Vec::new();
    v.push(Language::Rust);
    proof {
        assert(v@ =~= seq![Language::Rust]);
    }
    v
}

fn langs_c_cpp() -> (v: Vec<Language>)
    ensures
        v@ == seq![Language::C, Language::Cpp],
{
    let mut v: Vec<Language> = Vec::new();
    v.push(Language::C);
    v.push(Language::Cpp);
    proof {
        assert(v@ =~= seq![Language::C, Language::Cpp]);
    }
    v
}

fn langs_all() -> (v: Vec<Language>)
    ensures
        v@ == seq![Language::Rust, Language::C, Language::Cpp],
{
    let mut v: Vec<Language> = Vec::new();
    v.push(Language::Rust);
    v.push(Language::C);
    v.push(Language::Cpp);
    proof {
        assert(v@ =~= seq![Language::Rust, Language::C, Language::Cpp]);
    }
    v
}

/// The full, fixed list of rules; the same on every invocation.
pub fn get_text_rules() -> (rules: Vec<Rule>)
    ensures
        rules@.map_values(|r: Rule| r@) == catalog_spec(),
{
    let mut rules: Vec<Rule> = Vec::new();
    rules.push(Rule::new(
        "rust-unsafe-block",
        r"unsafe\s*\{",
        "Found an unsafe block",
        Severity::Warning,
        langs_rust(),
    ));
    rules.push(Rule::new(
        "rust-unwrap",
        r"\.unwrap\(\)",
        "Use of unwrap() may cause a panic",
        Severity::Warning,
        langs_rust(),
    ));
    rules.push(Rule::new(
        "rust-expect",
        r"\.expect\([^)]*\)",
        "Use of expect() may cause a panic",
        Severity::Warning,
        langs_rust(),
    ));
    rules.push(Rule::new(
        "rust-todo",
        r"//\s*TODO:?\s*.+",
        "Found a TODO comment",
        Severity::Info,
        langs_rust(),
    ));
    rules.push(Rule::new(
        "rust-fixme",
        r"//\s*FIXME:?\s*.+",
        "Found a FIXME comment",
        Severity::Info,
        langs_rust(),
    ));
    rules.push(Rule::new(
        "c-unsafe-function",
        r"\b(gets|strcpy|sprintf)\s*\(",
        "Use of an unsafe function",
        Severity::Error,
        langs_c_cpp(),
    ));
    rules.push(Rule::new(
        "c-malloc-without-free",
        r"malloc\s*\(",
        "malloc without a check for free",
        Severity::Warning,
        langs_c_cpp(),
    ));
    rules.push(Rule::new(
        "c-printf-format",
        r"printf\s*\(",
        "Use of printf instead of fprintf/std::cout",
        Severity::Info,
        langs_c_cpp(),
    ));
    rules.push(Rule::new(
        "long-line",
        r"^.{100,}$",
        "Line longer than 100 characters",
        Severity::Warning,
        langs_all(),
    ));
    rules.push(Rule::new(
        "magic-number",
        r"\b(0|-1|1|10|100|1000|255|256|1024|60|3600|24|7|8080|3000|3306)\b(?:$|[^(.]|\.(?:$|[^0-9]))",
        "Possible magic number - consider a named constant",
        Severity::Info,
        langs_all(),
    ));
    proof {
        assert(rules@.map_values(|r: Rule| r@) =~= catalog_spec());
    }
    rules
}

/// The catalog attributes findings unambiguously: its rule names are unique.
pub proof fn lemma_catalog_names_unique()
    ensures
        unique_rule_names(catalog_spec()),
{
    reveal_strlit("rust-unsafe-block");
    reveal_strlit("rust-unwrap");
    reveal_strlit("rust-expect");
    reveal_strlit("rust-todo");
    reveal_strlit("rust-fixme");
    reveal_strlit("c-unsafe-function");
    reveal_strlit("c-malloc-without-free");
    reveal_strlit("c-printf-format");
    reveal_strlit("long-line");
    reveal_strlit("magic-number");
    assert forall|i: int, j: int|
        0 <= i < j < catalog_spec().len() implies catalog_spec()[i].name
        != catalog_spec()[j].name by {
        let a = catalog_spec()[i].name;
        let b = catalog_spec()[j].name;
        assert(a.len() != b.len() || a[0] != b[0] || a[4] != b[4] || a[5] != b[5]);
    }
}

} // verus!
