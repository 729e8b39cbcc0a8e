//! Folding the verdicts of a run into a report and a pass/fail signal.

use vstd::prelude::*;
use crate::types::{ExecResult, Status};

verus! {

/// What a run hands to whoever renders it.
#[derive(Clone, Debug, PartialEq, Eq)]
pub struct AggregateReport {
    /// The verdicts to show, in the order in which the releases were found.
    pub results: Vec<ExecResult>,
    /// Whether the run as a whole counts as failed.
    pub should_fail: bool,
}

/// Whether a verdict is shown when up-to-date releases are hidden.
pub open spec fn is_shown(result: ExecResult) -> bool {
    result.status != Status::Uptodate
}

/// The verdicts that are shown: all of them, or, where up-to-date releases
/// are hidden, the others in the order given.
pub open spec fn shown(results: Seq<ExecResult>, hide_uptodate: bool) -> Seq<ExecResult> {
    if hide_uptodate {
        results.filter(|result: ExecResult| is_shown(result))
    } else {
        results
    }
}

/// Whether one status makes a run fail: `Missing` always does, `Outdated`
/// where the caller asked for it, `Uptodate` never.
pub open spec fn fails(status: Status, fail_on_outdated: bool) -> bool {
    status == Status::Missing || (fail_on_outdated && status == Status::Outdated)
}

/// Whether some verdict makes the run fail.
pub open spec fn should_fail_spec(results: Seq<ExecResult>, fail_on_outdated: bool) -> bool {
    exists|i: int| 0 <= i < results.len() && fails(#[trigger] results[i].status, fail_on_outdated)
}

/// Tells whether one status makes a run fail.
pub fn status_fails(status: Status, fail_on_outdated: bool) -> (failing: bool)
    ensures
        failing == fails(status, fail_on_outdated),
{
    match status {
        Status::Missing => true,
        Status::Outdated => fail_on_outdated,
        Status::Uptodate => false,
    }
}

/// Hiding up-to-date releases never changes whether the run fails.
pub proof fn lemma_filter_keeps_failure(
    results: Seq<ExecResult>,
    hide_uptodate: bool,
    fail_on_outdated: bool,
)
    ensures
        should_fail_spec(shown(results, hide_uptodate), fail_on_outdated) == should_fail_spec(
            results,
            fail_on_outdated,
        ),
{
    if hide_uptodate {
        let keep = |result: ExecResult| is_shown(result);
        let kept = results.filter(keep);
        results.filter_lemma(keep);
        if should_fail_spec(results, fail_on_outdated) {
            let i = choose|i: int|
                0 <= i < results.len() && fails(#[trigger] results[i].status, fail_on_outdated);
            assert(keep(results[i]));
            assert(kept.contains(results[i]));
            let j = choose|j: int| 0 <= j < kept.len() && kept[j] == results[i];
            assert(fails(kept[j].status, fail_on_outdated));
        }
        if should_fail_spec(kept, fail_on_outdated) {
            let j = choose|j: int|
                0 <= j < kept.len() && fails(#[trigger] kept[j].status, fail_on_outdated);
            assert(kept.contains(kept[j]));
            results.lemma_filter_contains_rev(keep, kept[j]);
            let i = choose|i: int| 0 <= i < results.len() && results[i] == kept[j];
            assert(fails(results[i].status, fail_on_outdated));
        }
    }
}

/// Folds the verdicts of a run into a report.
///
/// The report shows the verdicts in the order given, without the
/// up-to-date ones where `hide_uptodate` is set. The run fails where some
/// verdict, shown or hidden, is `Missing`, or is `Outdated` while
/// `fail_on_outdated` is set.
pub fn aggregate(results: Vec<ExecResult>, hide_uptodate: bool, fail_on_outdated: bool) -> (report:
    AggregateReport)
    ensures
        report.results@ == shown(results@, hide_uptodate),
        report.should_fail == should_fail_spec(results@, fail_on_outdated),
        report.should_fail == should_fail_spec(report.results@, fail_on_outdated),
{
    let ghost given = results@;
    let ghost keep = |result: ExecResult| is_shown(result);
    let mut kept: Vec<ExecResult> = Vec::new();
    let mut should_fail = false;
    assert(given.take(0) =~= Seq::<ExecResult>::empty());
    for result in it: results.into_iter()
        invariant
            it.seq() == given,
            kept@ == shown(given.take(it.index() as int), hide_uptodate),
            should_fail == should_fail_spec(given.take(it.index() as int), fail_on_outdated),
    {
        let ghost n = it.index() as int;
        proof {
            reveal(Seq::filter);
            assert(given.take(n + 1).drop_last() =~= given.take(n));
            assert(given.take(n + 1).last() == result);
            if should_fail {
                let i = choose|i: int|
                    0 <= i < n && fails(#[trigger] given.take(n)[i].status, fail_on_outdated);
                assert(fails(given.take(n + 1)[i].status, fail_on_outdated));
            }
            if should_fail_spec(given.take(n + 1), fail_on_outdated) {
                let i = choose|i: int|
                    0 <= i < n + 1 && fails(
                        #[trigger] given.take(n + 1)[i].status,
                        fail_on_outdated,
                    );
                if i < n {
                    assert(fails(given.take(n)[i].status, fail_on_outdated));
                }
            }
        }
        if status_fails(result.status, fail_on_outdated) {
            should_fail = true;
        }
        if !hide_uptodate || result.status != Status::Uptodate {
            kept.push(result);
        }
    }
    proof {
        assert(given.take(given.len() as int) =~= given);
        lemma_filter_keeps_failure(given, hide_uptodate, fail_on_outdated);
    }
    AggregateReport { results: kept, should_fail }
}

} // verus!
