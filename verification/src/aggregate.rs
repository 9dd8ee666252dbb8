//! The result aggregator: optional errors-only filtering. Discovery order is
//! preserved; no sorting is performed.
use vstd::prelude::*;
use crate::diagnostics::{DiagModel, Diagnostic};
use crate::report::count_severity;
use crate::severity::Severity;

verus! {

/// The `Error`-severity diagnostics of a list, in their original order.
pub open spec fn errors_only_spec(ds: Seq<DiagModel>) -> Seq<DiagModel>
    decreases ds.len(),
{
    if ds.len() == 0 {
        Seq::empty()
    } else {
        errors_only_spec(ds.drop_last()) + (if ds.last().severity == Severity::Error {
            seq![ds.last()]
        } else {
            Seq::empty()
        })
    }
}

/// Keep only the diagnostics with `Error` severity, preserving order.
pub fn filter_errors(results: &Vec<Diagnostic>) -> (r: Vec<Diagnostic>)
    ensures
        r@.map_values(|d: Diagnostic| d@) == errors_only_spec(
            results@.map_values(|d: Diagnostic| d@),
        ),
{
    let ghost dv = results@.map_values(|d: Diagnostic| d@);
    let mut r: Vec<Diagnostic> = Vec::new();
    let n = results.len();
    let mut i: usize = 0;
    proof {
        assert(dv.subrange(0, 0) =~= Seq::<DiagModel>::empty());
        assert(r@.map_values(|d: Diagnostic| d@) =~= errors_only_spec(dv.subrange(0, 0)));
    }
    while i < n
        invariant
            n == results@.len(),
            dv == results@.map_values(|d: Diagnostic| d@),
            0 <= i <= n,
            r@.map_values(|d: Diagnostic| d@) == errors_only_spec(dv.subrange(0, i as int)),
        decreases n - i,
    {
        let ghost before = r@.map_values(|d: Diagnostic| d@);
        if matches!(results[i].severity, Severity::Error) {
            r.push(results[i].clone());
            proof {
                assert(r@.map_values(|d: Diagnostic| d@) =~= before.push(dv[i as int]));
            }
        }
        proof {
            assert(dv.subrange(0, i as int + 1).drop_last() =~= dv.subrange(0, i as int));
            assert(dv.subrange(0, i as int + 1).last() == dv[i as int]);
            assert(errors_only_spec(dv.subrange(0, i as int + 1)) =~= r@.map_values(
                |d: Diagnostic| d@,
            ));
        }
        i = i + 1;
    }
    proof {
        assert(dv.subrange(0, n as int) =~= dv);
    }
    r
}

/// `a` occurs inside `b` in order: `b` can be thinned to `a` without
/// reordering.
pub open spec fn is_subsequence(a: Seq<DiagModel>, b: Seq<DiagModel>) -> bool
    decreases a.len() + b.len(),
{
    if a.len() == 0 {
        true
    } else if b.len() == 0 {
        false
    } else if a.last() == b.last() {
        is_subsequence(a.drop_last(), b.drop_last())
    } else {
        is_subsequence(a, b.drop_last())
    }
}

/// Errors-only output is a subset of the unfiltered output: exactly the
/// `Error`-severity diagnostics, none added, none reordered.
pub proof fn lemma_errors_only_subset(ds: Seq<DiagModel>)
    ensures
        is_subsequence(errors_only_spec(ds), ds),
        errors_only_spec(ds).len() == count_severity(ds, Severity::Error),
        forall|k: int|
            0 <= k < errors_only_spec(ds).len() ==> errors_only_spec(ds)[k].severity
                == Severity::Error,
        forall|k: int|
            0 <= k < ds.len() && ds[k].severity == Severity::Error ==> errors_only_spec(
                ds,
            ).contains(ds[k]),
    decreases ds.len(),
{
    if ds.len() == 0 {
    } else {
        let rest = ds.drop_last();
        lemma_errors_only_subset(rest);
        let eo = errors_only_spec(ds);
        if ds.last().severity == Severity::Error {
            assert(eo =~= errors_only_spec(rest).push(ds.last()));
            assert(eo.drop_last() =~= errors_only_spec(rest));
            assert forall|k: int|
                0 <= k < ds.len() && ds[k].severity == Severity::Error implies eo.contains(
                ds[k],
            ) by {
                if k < ds.len() - 1 {
                    assert(rest[k] == ds[k]);
                    let w = choose|w: int|
                        0 <= w < errors_only_spec(rest).len() && errors_only_spec(rest)[w] == ds[k];
                    assert(eo[w] == ds[k]);
                } else {
                    assert(eo[eo.len() - 1] == ds[k]);
                }
            }
        } else {
            assert(eo =~= errors_only_spec(rest));
            if eo.len() > 0 {
                assert(eo.last().severity == Severity::Error);
                assert(eo.last() != ds.last());
            }
            assert forall|k: int|
                0 <= k < ds.len() && ds[k].severity == Severity::Error implies eo.contains(
                ds[k],
            ) by {
                assert(k < ds.len() - 1);
                assert(rest[k] == ds[k]);
                let w = choose|w: int|
                    0 <= w < errors_only_spec(rest).len() && errors_only_spec(rest)[w] == ds[k];
                assert(eo[w] == ds[k]);
            }
        }
    }
}

} // verus!
