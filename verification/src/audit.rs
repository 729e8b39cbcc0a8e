//! The state of one audit run: the verdicts so far and the releases whose
//! versions could not be read.
//!
//! The caller walks the inventory, asks the repository index about each
//! release that is not skipped, and records the answer here.

use vstd::prelude::*;
use crate::aggregate::{aggregate, should_fail_spec, shown, AggregateReport};
use crate::evaluate::{check_chart, evaluate_spec, skip_reason, skip_spec, IndexAnswer, Skip};
use crate::types::{ExecResult, HelmChart};
use crate::version::InvalidVersion;

verus! {

/// What became of a release that was recorded.
#[derive(Clone, Copy, Debug, PartialEq, Eq, Structural)]
pub enum Recorded {
    /// A verdict was added to the results.
    Judged,
    /// The release was passed over.
    Skipped(Skip),
    /// A version could not be read; the release is left out of the results.
    Unreadable,
}

/// An audit run in progress.
#[derive(Clone, Debug, PartialEq, Eq)]
pub struct Audit {
    /// The verdicts so far, in the order in which the releases were recorded.
    pub results: Vec<ExecResult>,
    /// The version texts that could not be read, one for each release that
    /// was left out on that account, in the same order.
    pub unreadable: Vec<InvalidVersion>,
}

impl Audit {
    /// Whether the run has nothing to show but failures: no release got a
    /// verdict although at least one was left out as unreadable.
    pub open spec fn is_total_failure(self) -> bool {
        self.results@.len() == 0 && self.unreadable@.len() > 0
    }

    /// A run in which nothing has been recorded yet.
    pub fn new() -> (audit: Self)
        ensures
            audit.results@.len() == 0,
            audit.unreadable@.len() == 0,
    {
        Audit { results: Vec::new(), unreadable: Vec::new() }
    }

    /// Records one release with what the index answered for it.
    ///
    /// A verdict goes to the end of the results. A release whose version, or
    /// whose catalog, cannot be read goes to the unreadable ones with the
    /// offending text, and the run goes on. A skipped release changes nothing.
    pub fn record(&mut self, release: &HelmChart, answer: &IndexAnswer) -> (recorded: Recorded)
        ensures
            match evaluate_spec(release@, answer.offers()) {
                Ok(Some(verdict)) => {
                    &&& recorded == Recorded::Judged
                    &&& final(self).results@.len() == old(self).results@.len() + 1
                    &&& final(self).results@.drop_last() == old(self).results@
                    &&& final(self).results@.last()@ == verdict
                    &&& final(self).unreadable@ == old(self).unreadable@
                },
                Ok(None) => {
                    &&& skip_spec(release@) matches Some(skip)
                    &&& recorded == Recorded::Skipped(skip)
                    &&& *final(self) == *old(self)
                },
                Err(bad) => {
                    &&& recorded == Recorded::Unreadable
                    &&& final(self).results@ == old(self).results@
                    &&& final(self).unreadable@.len() == old(self).unreadable@.len() + 1
                    &&& final(self).unreadable@.drop_last() == old(self).unreadable@
                    &&& final(self).unreadable@.last().version@ == bad
                },
            },
    {
        if let Some(skip) = skip_reason(release) {
            return Recorded::Skipped(skip);
        }
        match check_chart(&mut self.results, release, answer) {
            Ok(()) => Recorded::Judged,
            Err(e) => {
                self.unreadable.push(e);
                assert(self.unreadable@.drop_last() =~= old(self).unreadable@);
                Recorded::Unreadable
            },
        }
    }

    /// Tells whether the run has nothing to show but failures.
    ///
    /// Such a run has no verdicts, so its report does not fail; this is what
    /// tells it apart from a run in which all is well.
    pub fn total_failure(&self) -> (total: bool)
        ensures
            total == self.is_total_failure(),
    {
        self.results.len() == 0 && self.unreadable.len() > 0
    }

    /// Ends the run and folds its verdicts into a report.
    pub fn report(self, hide_uptodate: bool, fail_on_outdated: bool) -> (report: AggregateReport)
        ensures
            report.results@ == shown(self.results@, hide_uptodate),
            report.should_fail == should_fail_spec(self.results@, fail_on_outdated),
    {
        aggregate(self.results, hide_uptodate, fail_on_outdated)
    }
}

} // verus!
