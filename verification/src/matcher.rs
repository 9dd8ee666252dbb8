//! The line matcher: apply every applicable rule of the catalog to every
//! line of one file's content, collecting diagnostics in order.
use vstd::prelude::*;
use vstd::string::*;
use crate::diagnostics::{mk_diag, DiagModel, Diagnostic};
use crate::filters::{is_comment_line, is_comment_line_spec, is_false_positive, suppressed_spec};
use crate::language::{any_language_matches, rule_applicable};
use crate::pattern::{pattern_ok, regex_is_match, regex_match};
use crate::rules::{unique_rule_names, Rule, RuleModel};
use crate::text::{spec_lines, split_lines, to_lower, trim, trim_spec};

verus! {

/// A rule fires on a trimmed line when its pattern matches and the match is
/// not vetoed as a false positive. A pattern that does not compile never
/// fires.
pub open spec fn rule_fires(rule: RuleModel, line: Seq<char>) -> bool {
    pattern_ok(rule.pattern) && regex_match(rule.pattern, line) && !suppressed_spec(
        rule.name,
        line,
    )
}

/// The diagnostics one rule contributes for one line: one record when the
/// rule is applicable and fires, none otherwise.
pub open spec fn rule_diag_opt(
    file: Seq<char>,
    lineno: int,
    t: Seq<char>,
    ext_lower: Seq<char>,
    rule: RuleModel,
) -> Seq<DiagModel> {
    if rule_applicable(rule.languages, ext_lower) && rule_fires(rule, t) {
        seq![mk_diag(file, lineno, rule, t)]
    } else {
        Seq::empty()
    }
}

/// The diagnostics of one trimmed line, over the rules in catalog order.
pub open spec fn line_rule_diags(
    file: Seq<char>,
    lineno: int,
    t: Seq<char>,
    ext_lower: Seq<char>,
    rules: Seq<RuleModel>,
) -> Seq<DiagModel>
    decreases rules.len(),
{
    if rules.len() == 0 {
        Seq::empty()
    } else {
        line_rule_diags(file, lineno, t, ext_lower, rules.drop_last()) + rule_diag_opt(
            file,
            lineno,
            t,
            ext_lower,
            rules.last(),
        )
    }
}

/// The diagnostics of one raw line: nothing for a line that is empty after
/// trimming or is comment-only, else the per-rule diagnostics of the trim.
pub open spec fn line_diags(
    file: Seq<char>,
    lineno: int,
    raw: Seq<char>,
    ext_lower: Seq<char>,
    rules: Seq<RuleModel>,
) -> Seq<DiagModel> {
    let t = trim_spec(raw);
    if t.len() == 0 || is_comment_line_spec(t, ext_lower) {
        Seq::empty()
    } else {
        line_rule_diags(file, lineno, t, ext_lower, rules)
    }
}

/// The diagnostics of a list of lines, the last line numbered `lines.len()`.
pub open spec fn lines_diags(
    file: Seq<char>,
    ext_lower: Seq<char>,
    rules: Seq<RuleModel>,
    lines: Seq<Seq<char>>,
) -> Seq<DiagModel>
    decreases lines.len(),
{
    if lines.len() == 0 {
        Seq::empty()
    } else {
        lines_diags(file, ext_lower, rules, lines.drop_last()) + line_diags(
            file,
            lines.len() as int,
            lines.last(),
            ext_lower,
            rules,
        )
    }
}

/// Everything the analysis of one file's content reports, in order.
pub open spec fn content_diags(
    file: Seq<char>,
    ext_lower: Seq<char>,
    rules: Seq<RuleModel>,
    content: Seq<char>,
) -> Seq<DiagModel> {
    lines_diags(file, ext_lower, rules, spec_lines(content))
}

/// Analyze one file's content: 1-based line numbers, whitespace-trimmed
/// lines, comment-only lines skipped, every applicable rule tried on every
/// remaining line, false positives vetoed. A single line may produce several
/// diagnostics, one per firing rule.
pub fn analyze_content(file: &str, extension: &str, rules: &Vec<Rule>, content: &str) -> (res: Vec<
    Diagnostic,
>)
    ensures
        res@.map_values(|d: Diagnostic| d@) == content_diags(
            file@,
            to_lower(extension@),
            rules@.map_values(|r: Rule| r@),
            content@,
        ),
{
    let ghost ext_lower = to_lower(extension@);
    let ghost rv = rules@.map_values(|r: Rule| r@);
    let lines = split_lines(content);
    let ghost lv = lines@.map_values(|l: String| l@);
    let mut res: Vec<Diagnostic> = Vec::new();
    let nlines = lines.len();
    let mut li: usize = 0;
    proof {
        assert(lv.subrange(0, 0) =~= Seq::<Seq<char>>::empty());
        assert(res@.map_values(|d: Diagnostic| d@) =~= lines_diags(
            file@,
            ext_lower,
            rv,
            lv.subrange(0, 0),
        ));
    }
    while li < nlines
        invariant
            nlines == lines@.len(),
            lv == lines@.map_values(|l: String| l@),
            rv == rules@.map_values(|r: Rule| r@),
            ext_lower == to_lower(extension@),
            0 <= li <= nlines,
            res@.map_values(|d: Diagnostic| d@) == lines_diags(
                file@,
                ext_lower,
                rv,
                lv.subrange(0, li as int),
            ),
        decreases nlines - li,
    {
        let trimmed = trim(lines[li].as_str());
        let ghost t = trim_spec(lv[li as int]);
        let skip = trimmed.is_empty() || is_comment_line(trimmed, extension);
        if !skip {
            let nrules = rules.len();
            let mut ri: usize = 0;
            proof {
                assert(rv.subrange(0, 0) =~= Seq::<RuleModel>::empty());
                assert(res@.map_values(|d: Diagnostic| d@) =~= lines_diags(
                    file@,
                    ext_lower,
                    rv,
                    lv.subrange(0, li as int),
                ) + line_rule_diags(file@, li as int + 1, t, ext_lower, rv.subrange(0, 0)));
            }
            while ri < nrules
                invariant
                    nrules == rules@.len(),
                    nlines == lines@.len(),
                    lv == lines@.map_values(|l: String| l@),
                    rv == rules@.map_values(|r: Rule| r@),
                    ext_lower == to_lower(extension@),
                    0 <= li < nlines,
                    0 <= ri <= nrules,
                    t == trim_spec(lv[li as int]),
                    trimmed@ == t,
                    res@.map_values(|d: Diagnostic| d@) == lines_diags(
                        file@,
                        ext_lower,
                        rv,
                        lv.subrange(0, li as int),
                    ) + line_rule_diags(file@, li as int + 1, t, ext_lower, rv.subrange(
                        0,
                        ri as int,
                    )),
                decreases nrules - ri,
            {
                let rule = &rules[ri];
                proof {
                    assert(rule@ == rv[ri as int]);
                }
                if any_language_matches(extension, &rule.languages) {
                    let m = regex_is_match(rule.pattern.as_str(), trimmed);
                    let fires = match m {
                        Some(true) => !is_false_positive(trimmed, rule.name.as_str()),
                        _ => false,
                    };
                    if fires {
                        let ghost before = res@.map_values(|d: Diagnostic| d@);
                        let d = Diagnostic {
                            file: String::from_str(file),
                            line: li + 1,
                            message: rule.message.clone(),
                            severity: rule.severity,
                            rule_name: rule.name.clone(),
                            code_snippet: String::from_str(trimmed),
                        };
                        proof {
                            assert(d@ == mk_diag(file@, li as int + 1, rv[ri as int], t));
                        }
                        res.push(d);
                        proof {
                            assert(res@.map_values(|d: Diagnostic| d@) =~= before.push(
                                mk_diag(file@, li as int + 1, rv[ri as int], t),
                            ));
                        }
                    }
                }
                proof {
                    assert(rv.subrange(0, ri as int + 1).drop_last() =~= rv.subrange(0, ri as int));
                    assert(rv.subrange(0, ri as int + 1).last() == rv[ri as int]);
                    assert(lines_diags(file@, ext_lower, rv, lv.subrange(0, li as int))
                        + line_rule_diags(file@, li as int + 1, t, ext_lower, rv.subrange(
                        0,
                        ri as int + 1,
                    )) =~= res@.map_values(|d: Diagnostic| d@));
                }
                ri = ri + 1;
            }
            proof {
                assert(rv.subrange(0, nrules as int) =~= rv);
            }
        }
        proof {
            assert(lv.subrange(0, li as int + 1).drop_last() =~= lv.subrange(0, li as int));
            assert(lv.subrange(0, li as int + 1).last() == lv[li as int]);
            assert(lv.subrange(0, li as int + 1).len() == li as int + 1);
            if trim_spec(lv[li as int]).len() == 0 || is_comment_line_spec(
                trim_spec(lv[li as int]),
                ext_lower,
            ) {
                assert(lines_diags(file@, ext_lower, rv, lv.subrange(0, li as int + 1))
                    =~= lines_diags(file@, ext_lower, rv, lv.subrange(0, li as int)));
            } else {
                assert(lines_diags(file@, ext_lower, rv, lv.subrange(0, li as int + 1))
                    =~= lines_diags(file@, ext_lower, rv, lv.subrange(0, li as int))
                    + line_rule_diags(file@, li as int + 1, trim_spec(lv[li as int]), ext_lower, rv));
            }
        }
        li = li + 1;
    }
    proof {
        assert(lv.subrange(0, nlines as int) =~= lv);
    }
    res
}

/// How many diagnostics of `ds` carry this rule name and this line number.
pub open spec fn count_matching(ds: Seq<DiagModel>, name: Seq<char>, lineno: int) -> nat
    decreases ds.len(),
{
    if ds.len() == 0 {
        0
    } else {
        count_matching(ds.drop_last(), name, lineno) + (if ds.last().rule_name == name
            && ds.last().line == lineno {
            1nat
        } else {
            0nat
        })
    }
}

proof fn lemma_count_concat(a: Seq<DiagModel>, b: Seq<DiagModel>, name: Seq<char>, lineno: int)
    ensures
        count_matching(a + b, name, lineno) == count_matching(a, name, lineno) + count_matching(
            b,
            name,
            lineno,
        ),
    decreases b.len(),
{
    if b.len() == 0 {
        assert(a + b =~= a);
    } else {
        lemma_count_concat(a, b.drop_last(), name, lineno);
        assert((a + b).drop_last() =~= a + b.drop_last());
        assert((a + b).last() == b.last());
    }
}

proof fn lemma_count_zero(ds: Seq<DiagModel>, name: Seq<char>, lineno: int)
    requires
        forall|k: int|
            0 <= k < ds.len() ==> !(ds[k].rule_name == name && ds[k].line == lineno),
    ensures
        count_matching(ds, name, lineno) == 0,
    decreases ds.len(),
{
    if ds.len() > 0 {
        lemma_count_zero(ds.drop_last(), name, lineno);
    }
}

proof fn lemma_line_diag_fields(
    file: Seq<char>,
    lineno: int,
    t: Seq<char>,
    ext_lower: Seq<char>,
    rules: Seq<RuleModel>,
)
    ensures
        forall|k: int|
            0 <= k < line_rule_diags(file, lineno, t, ext_lower, rules).len() ==> (line_rule_diags(
                file,
                lineno,
                t,
                ext_lower,
                rules,
            )[k].line == lineno && line_rule_diags(file, lineno, t, ext_lower, rules)[k].file
                == file && line_rule_diags(file, lineno, t, ext_lower, rules)[k].code_snippet
                == t),
    decreases rules.len(),
{
    if rules.len() > 0 {
        lemma_line_diag_fields(file, lineno, t, ext_lower, rules.drop_last());
    }
}

proof fn lemma_count_absent(
    file: Seq<char>,
    lineno: int,
    t: Seq<char>,
    ext_lower: Seq<char>,
    rules: Seq<RuleModel>,
    name: Seq<char>,
    lineno2: int,
)
    requires
        forall|k: int| 0 <= k < rules.len() ==> rules[k].name != name,
    ensures
        count_matching(line_rule_diags(file, lineno, t, ext_lower, rules), name, lineno2) == 0,
    decreases rules.len(),
{
    if rules.len() > 0 {
        let rest = rules.drop_last();
        lemma_count_absent(file, lineno, t, ext_lower, rest, name, lineno2);
        lemma_count_concat(
            line_rule_diags(file, lineno, t, ext_lower, rest),
            rule_diag_opt(file, lineno, t, ext_lower, rules.last()),
            name,
            lineno2,
        );
        lemma_count_zero(rule_diag_opt(file, lineno, t, ext_lower, rules.last()), name, lineno2);
    }
}

proof fn lemma_line_count_one(
    file: Seq<char>,
    lineno: int,
    t: Seq<char>,
    ext_lower: Seq<char>,
    rules: Seq<RuleModel>,
    j: int,
)
    requires
        0 <= j < rules.len(),
        unique_rule_names(rules),
        rule_applicable(rules[j].languages, ext_lower),
        rule_fires(rules[j], t),
    ensures
        count_matching(line_rule_diags(file, lineno, t, ext_lower, rules), rules[j].name, lineno)
            == 1,
    decreases rules.len(),
{
    let rest = rules.drop_last();
    let chunk = rule_diag_opt(file, lineno, t, ext_lower, rules.last());
    lemma_count_concat(
        line_rule_diags(file, lineno, t, ext_lower, rest),
        chunk,
        rules[j].name,
        lineno,
    );
    if j == rules.len() - 1 {
        assert(forall|k: int| 0 <= k < rest.len() ==> rest[k].name != rules[j].name);
        lemma_count_absent(file, lineno, t, ext_lower, rest, rules[j].name, lineno);
        assert(chunk == seq![mk_diag(file, lineno, rules[j], t)]);
        assert(chunk.drop_last() =~= Seq::<DiagModel>::empty());
        assert(count_matching(Seq::<DiagModel>::empty(), rules[j].name, lineno) == 0);
        assert(chunk.last() == mk_diag(file, lineno, rules[j], t));
        assert(count_matching(chunk, rules[j].name, lineno) == 1);
    } else {
        lemma_line_count_one(file, lineno, t, ext_lower, rest, j);
        lemma_count_zero(chunk, rules[j].name, lineno);
    }
}

proof fn lemma_lines_count_one(
    file: Seq<char>,
    ext_lower: Seq<char>,
    rules: Seq<RuleModel>,
    lines: Seq<Seq<char>>,
    i: int,
    j: int,
)
    requires
        unique_rule_names(rules),
        0 <= i < lines.len(),
        0 <= j < rules.len(),
        trim_spec(lines[i]).len() > 0,
        !is_comment_line_spec(trim_spec(lines[i]), ext_lower),
        rule_applicable(rules[j].languages, ext_lower),
        rule_fires(rules[j], trim_spec(lines[i])),
    ensures
        count_matching(lines_diags(file, ext_lower, rules, lines), rules[j].name, i + 1) == 1,
    decreases lines.len(),
{
    let rest = lines.drop_last();
    let chunk = line_diags(file, lines.len() as int, lines.last(), ext_lower, rules);
    lemma_count_concat(lines_diags(file, ext_lower, rules, rest), chunk, rules[j].name, i + 1);
    if i == lines.len() - 1 {
        lemma_diag_positions_lines(file, ext_lower, rules, rest);
        lemma_count_zero(lines_diags(file, ext_lower, rules, rest), rules[j].name, i + 1);
        lemma_line_count_one(file, i + 1, trim_spec(lines[i]), ext_lower, rules, j);
    } else {
        lemma_lines_count_one(file, ext_lower, rules, rest, i, j);
        lemma_line_diag_fields(file, lines.len() as int, trim_spec(lines.last()), ext_lower, rules);
        lemma_count_zero(chunk, rules[j].name, i + 1);
    }
}

proof fn lemma_diag_positions_lines(
    file: Seq<char>,
    ext_lower: Seq<char>,
    rules: Seq<RuleModel>,
    lines: Seq<Seq<char>>,
)
    ensures
        forall|k: int|
            0 <= k < lines_diags(file, ext_lower, rules, lines).len() ==> (1 <= lines_diags(
                file,
                ext_lower,
                rules,
                lines,
            )[k].line <= lines.len() && lines_diags(file, ext_lower, rules, lines)[k].code_snippet
                == trim_spec(lines[lines_diags(file, ext_lower, rules, lines)[k].line - 1])
                && lines_diags(file, ext_lower, rules, lines)[k].file == file),
    decreases lines.len(),
{
    if lines.len() > 0 {
        let rest = lines.drop_last();
        lemma_diag_positions_lines(file, ext_lower, rules, rest);
        lemma_line_diag_fields(
            file,
            lines.len() as int,
            trim_spec(lines.last()),
            ext_lower,
            rules,
        );
        assert forall|k: int|
            0 <= k < lines_diags(file, ext_lower, rules, lines).len() implies (1 <= lines_diags(
            file,
            ext_lower,
            rules,
            lines,
        )[k].line <= lines.len() && lines_diags(file, ext_lower, rules, lines)[k].code_snippet
            == trim_spec(lines[lines_diags(file, ext_lower, rules, lines)[k].line - 1])
            && lines_diags(file, ext_lower, rules, lines)[k].file == file) by {
            let full = lines_diags(file, ext_lower, rules, lines);
            let prefix = lines_diags(file, ext_lower, rules, rest);
            if k < prefix.len() {
                assert(full[k] == prefix[k]);
                assert(rest[full[k].line - 1] == lines[full[k].line - 1]);
            } else {
                assert(full[k] == line_diags(
                    file,
                    lines.len() as int,
                    lines.last(),
                    ext_lower,
                    rules,
                )[k - prefix.len()]);
            }
        }
    }
}

/// A line that matches a rule's pattern, is not comment-only, is not
/// suppressed, and whose language tag intersects the rule's set, produces a
/// diagnostic with that rule's name exactly once per line and rule.
pub proof fn lemma_rule_fires_exactly_once(
    file: Seq<char>,
    ext_lower: Seq<char>,
    rules: Seq<RuleModel>,
    content: Seq<char>,
    i: int,
    j: int,
)
    requires
        unique_rule_names(rules),
        0 <= i < spec_lines(content).len(),
        0 <= j < rules.len(),
        trim_spec(spec_lines(content)[i]).len() > 0,
        !is_comment_line_spec(trim_spec(spec_lines(content)[i]), ext_lower),
        rule_applicable(rules[j].languages, ext_lower),
        rule_fires(rules[j], trim_spec(spec_lines(content)[i])),
    ensures
        count_matching(content_diags(file, ext_lower, rules, content), rules[j].name, i + 1) == 1,
{
    lemma_lines_count_one(file, ext_lower, rules, spec_lines(content), i, j);
}

/// Line numbers are 1-based positions into the original content's lines, and
/// each diagnostic carries the trimmed text of exactly that line.
pub proof fn lemma_diag_positions(
    file: Seq<char>,
    ext_lower: Seq<char>,
    rules: Seq<RuleModel>,
    content: Seq<char>,
)
    ensures
        forall|k: int|
            0 <= k < content_diags(file, ext_lower, rules, content).len() ==> (1 <= content_diags(
                file,
                ext_lower,
                rules,
                content,
            )[k].line <= spec_lines(content).len() && content_diags(
                file,
                ext_lower,
                rules,
                content,
            )[k].code_snippet == trim_spec(
                spec_lines(content)[content_diags(file, ext_lower, rules, content)[k].line - 1],
            ) && content_diags(file, ext_lower, rules, content)[k].file == file),
{
    lemma_diag_positions_lines(file, ext_lower, rules, spec_lines(content));
}

/// Analysis is deterministic: the same content under the same arguments
/// yields the same diagnostics, in the same order.
pub proof fn lemma_analysis_deterministic(
    file: Seq<char>,
    ext_lower: Seq<char>,
    rules: Seq<RuleModel>,
    c1: Seq<char>,
    c2: Seq<char>,
)
    requires
        c1 == c2,
    ensures
        content_diags(file, ext_lower, rules, c1) == content_diags(file, ext_lower, rules, c2),
{
}

} // verus!
