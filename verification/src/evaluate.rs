//! Judging one release against what the repository index answered for it.

use vstd::prelude::*;
use crate::classify::{classify, classify_spec};
use crate::resolve::{exact_match_spec, latest_spec, resolve};
use crate::types::{
    offers_of,
    AvailableVersion,
    ChartView,
    ExecResult,
    HelmChart,
    OfferView,
    ResultView,
    Status,
};
use crate::version::{is_valid, is_version, normalize, strip_v, InvalidVersion};

verus! {

/// Why a release is passed over without a verdict.
#[derive(Clone, Copy, Debug, PartialEq, Eq, Structural)]
pub enum Skip {
    /// The record names no chart, so there is nothing to look up.
    NoChart,
    /// The record gives no version, or an empty one.
    NoVersion,
}

/// What the repository index answered when asked for a chart's versions.
#[derive(Clone, Debug, PartialEq, Eq)]
pub enum IndexAnswer {
    /// The query failed; the chart is judged as if nothing were on offer.
    Unavailable,
    /// The versions on offer, possibly none.
    Catalog(Vec<AvailableVersion>),
}

impl IndexAnswer {
    /// The catalog that the answer amounts to: empty where the query failed.
    pub open spec fn offers(self) -> Seq<OfferView> {
        match self {
            IndexAnswer::Unavailable => Seq::empty(),
            IndexAnswer::Catalog(catalog) => offers_of(catalog@),
        }
    }
}

/// Whether every line of a search result gives a version.
pub open spec fn all_versioned(found: Seq<HelmChart>) -> bool {
    forall|i: int| 0 <= i < found.len() ==> (#[trigger] found[i]).version is Some
}

/// Why a release gets no verdict, `None` where it gets one: a release
/// without a chart is skipped, and so is one without a version or with an
/// empty one.
pub open spec fn skip_spec(release: ChartView) -> Option<Skip> {
    if release.chart is None {
        Some(Skip::NoChart)
    } else if release.version is None || release.version->0.len() == 0 {
        Some(Skip::NoVersion)
    } else {
        None
    }
}

/// The release name to report: empty where the record has none.
pub open spec fn reported_name(release: ChartView) -> Seq<char> {
    match release.name {
        Some(name) => name,
        None => Seq::empty(),
    }
}

/// The verdict on a release that is not skipped, given the latest version on
/// offer and the status: chart and installed version are the release's, and
/// the name is the release's or empty.
pub open spec fn verdict_spec(release: ChartView, latest: Seq<char>, status: Status) -> ResultView {
    ResultView {
        name: reported_name(release),
        chart: release.chart->0,
        latest_version: latest,
        current_version: release.version->0,
        status,
    }
}

/// The verdict on a release given the catalog: `Ok(None)` for a skipped
/// release, `Err` with the unreadable text where a version stands in the way.
///
/// The installed version is read first, without its letters `v`; then the
/// catalog is searched for the latest version; then the release is
/// classified. The verdict shows the installed version as it was given.
pub open spec fn evaluate_spec(release: ChartView, catalog: Seq<OfferView>) -> Result<
    Option<ResultView>,
    Seq<char>,
> {
    if skip_spec(release) is Some {
        Ok(None)
    } else {
        let installed = release.version->0;
        if !is_version(strip_v(installed)) {
            Err(installed)
        } else {
            match latest_spec(catalog) {
                Err(bad) => Err(bad),
                Ok(latest) => match classify_spec(
                    installed,
                    latest,
                    exact_match_spec(release, catalog),
                ) {
                    None => Err(latest),
                    Some(status) => Ok(Some(verdict_spec(release, latest, status))),
                },
            }
        }
    }
}

/// Tells why a release is to be skipped, or that it is not.
pub fn skip_reason(release: &HelmChart) -> (reason: Option<Skip>)
    ensures
        reason == skip_spec(release@),
{
    if release.chart.is_none() {
        return Some(Skip::NoChart);
    }
    match &release.version {
        None => Some(Skip::NoVersion),
        Some(version) => {
            if version.as_str().is_empty() {
                Some(Skip::NoVersion)
            } else {
                None
            }
        },
    }
}

/// Writes the verdict on a release out of the latest version on offer and
/// the status. A release that is to be skipped gets none.
pub fn verdict_of(release: &HelmChart, latest_version: String, status: Status) -> (verdict: Option<
    ExecResult,
>)
    ensures
        match skip_spec(release@) {
            Some(_) => verdict is None,
            None => verdict matches Some(result) && result@ == verdict_spec(
                release@,
                latest_version@,
                status,
            ),
        },
{
    if skip_reason(release).is_some() {
        return None;
    }
    match (&release.chart, &release.version) {
        (Some(chart), Some(installed)) => {
            let name = match &release.name {
                Some(name) => name.clone(),
                None => String::new(),
            };
            Some(
                ExecResult::new(name, chart.clone(), latest_version, installed.clone(), status),
            )
        },
        _ => None,
    }
}

/// Turns the lines that a search for a chart gave into the index's answer.
///
/// Every line becomes one catalog entry, in order, under the chart that was
/// asked for and with the line's version as it stands. A line without a
/// version makes the whole answer unusable.
pub fn catalog_of(chart: &str, found: &Vec<HelmChart>) -> (answer: IndexAnswer)
    ensures
        answer is Unavailable <==> !all_versioned(found@),
        answer matches IndexAnswer::Catalog(catalog) ==> catalog@.len() == found@.len()
            && forall|i: int|
            0 <= i < found@.len() ==> (#[trigger] catalog@[i])@ == (OfferView {
                chart: chart@,
                version: found@[i].version->0@,
            }),
{
    let mut catalog: Vec<AvailableVersion> = Vec::new();
    let mut i: usize = 0;
    while i < found.len()
        invariant
            i <= found.len(),
            catalog@.len() == i,
            forall|j: int| 0 <= j < i ==> (#[trigger] found@[j]).version is Some,
            forall|j: int|
                0 <= j < i ==> (#[trigger] catalog@[j])@ == (OfferView {
                    chart: chart@,
                    version: found@[j].version->0@,
                }),
        decreases found.len() - i,
    {
        match &found[i].version {
            Some(version) => {
                catalog.push(
                    AvailableVersion { chart: String::from_str(chart), version: version.clone() },
                );
            },
            None => {
                assert(found@[i as int].version is None);
                return IndexAnswer::Unavailable;
            },
        }
        i += 1;
    }
    IndexAnswer::Catalog(catalog)
}

/// Judges one release against a catalog.
///
/// A skipped release gives `Ok(None)`. Otherwise the verdict carries the
/// chart, the installed version, the latest version on offer and the status;
/// the release name is empty where the record has none. Fails where the
/// installed version, a catalog entry or the latest version cannot be read as
/// a version, with that text.
pub fn evaluate(release: &HelmChart, catalog: &Vec<AvailableVersion>) -> (outcome: Result<
    Option<ExecResult>,
    InvalidVersion,
>)
    ensures
        match evaluate_spec(release@, offers_of(catalog@)) {
            Ok(Some(verdict)) => outcome matches Ok(Some(result)) && result@ == verdict,
            Ok(None) => outcome matches Ok(None),
            Err(bad) => outcome matches Err(e) && e.version@ == bad,
        },
{
    if skip_reason(release).is_some() {
        return Ok(None);
    }
    let installed = match &release.version {
        Some(installed) => installed,
        None => { return Ok(None); },
    };
    if !is_valid(normalize(installed.as_str()).as_str()) {
        return Err(InvalidVersion { version: installed.clone() });
    }
    let resolved = match resolve(release, catalog) {
        Ok(resolved) => resolved,
        Err(e) => { return Err(e); },
    };
    let status = match classify(
        installed.as_str(),
        resolved.latest_version.as_str(),
        resolved.exact_match_exists,
    ) {
        Ok(status) => status,
        Err(e) => { return Err(e); },
    };
    Ok(verdict_of(release, resolved.latest_version, status))
}

/// Judges one release against what the index answered and, where there is a
/// verdict, adds it at the end of the results.
///
/// A failed query counts as an empty catalog. A skipped release and a failure
/// leave the results as they were.
pub fn check_chart(
    result: &mut Vec<ExecResult>,
    local_chart: &HelmChart,
    answer: &IndexAnswer,
) -> (outcome: Result<(), InvalidVersion>)
    ensures
        match evaluate_spec(local_chart@, answer.offers()) {
            Ok(Some(verdict)) => outcome is Ok && final(result)@.len() == old(result)@.len() + 1
                && final(result)@.drop_last() == old(result)@ && final(result)@.last()@
                == verdict,
            Ok(None) => outcome is Ok && final(result)@ == old(result)@,
            Err(bad) => outcome matches Err(e) && e.version@ == bad && final(result)@
                == old(result)@,
        },
{
    let judged = match answer {
        IndexAnswer::Unavailable => {
            let nothing: Vec<AvailableVersion> = Vec::new();
            assert(offers_of(nothing@) =~= Seq::<OfferView>::empty());
            evaluate(local_chart, &nothing)
        },
        IndexAnswer::Catalog(catalog) => evaluate(local_chart, catalog),
    };
    match judged {
        Ok(Some(verdict)) => {
            result.push(verdict);
            assert(result@.drop_last() =~= old(result)@);
            Ok(())
        },
        Ok(None) => Ok(()),
        Err(e) => Err(e),
    }
}

} // verus!
