//! The records that flow through an audit run, each with its mathematical view.

use vstd::prelude::*;

verus! {

/// How a deployed release stands against its repository.
#[derive(Clone, Copy, Debug, PartialEq, Eq, Structural)]
pub enum Status {
    /// The installed version is the latest one on offer.
    Uptodate,
    /// The repository offers a newer version.
    Outdated,
    /// The installed version cannot be accounted for in the repository.
    Missing,
}

/// The text under which a status is reported.
pub open spec fn status_label(status: Status) -> Seq<char> {
    match status {
        Status::Uptodate => "Up-to-date"@,
        Status::Outdated => "Outdated"@,
        Status::Missing => "Missing"@,
    }
}

impl Status {
    /// The text under which this status is reported.
    pub fn label(&self) -> (text: String)
        ensures
            text@ == status_label(*self),
    {
        match self {
            Status::Uptodate => String::from_str("Up-to-date"),
            Status::Outdated => String::from_str("Outdated"),
            Status::Missing => String::from_str("Missing"),
        }
    }
}

/// The characters of an optional string.
pub open spec fn text_of(s: Option<String>) -> Option<Seq<char>> {
    match s {
        Some(t) => Some(t@),
        None => None,
    }
}

/// A release as an inventory reports it, or one line of a repository search.
#[derive(Clone, Debug, PartialEq, Eq)]
pub struct HelmChart {
    pub name: Option<String>,
    pub chart: Option<String>,
    pub version: Option<String>,
}

/// What a [`HelmChart`] says, as plain text.
pub ghost struct ChartView {
    pub name: Option<Seq<char>>,
    pub chart: Option<Seq<char>>,
    pub version: Option<Seq<char>>,
}

impl View for HelmChart {
    type V = ChartView;

    open spec fn view(&self) -> ChartView {
        ChartView {
            name: text_of(self.name),
            chart: text_of(self.chart),
            version: text_of(self.version),
        }
    }
}

/// A chart repository that a release points to.
#[derive(Clone, Debug, PartialEq, Eq)]
pub struct HelmRepo {
    pub name: Option<String>,
    pub url: String,
}

/// One version that a repository offers of a chart.
#[derive(Clone, Debug, PartialEq, Eq)]
pub struct AvailableVersion {
    pub chart: String,
    pub version: String,
}

/// What an [`AvailableVersion`] says, as plain text.
pub ghost struct OfferView {
    pub chart: Seq<char>,
    pub version: Seq<char>,
}

impl View for AvailableVersion {
    type V = OfferView;

    open spec fn view(&self) -> OfferView {
        OfferView { chart: self.chart@, version: self.version@ }
    }
}

/// The views of a catalog's entries, in order.
pub open spec fn offers_of(catalog: Seq<AvailableVersion>) -> Seq<OfferView> {
    catalog.map_values(|offer: AvailableVersion| offer@)
}

/// The verdict on one release.
#[derive(Clone, Debug, PartialEq, Eq)]
pub struct ExecResult {
    pub name: String,
    pub chart: String,
    pub latest_version: String,
    pub current_version: String,
    pub status: Status,
}

/// What an [`ExecResult`] says, as plain text.
pub ghost struct ResultView {
    pub name: Seq<char>,
    pub chart: Seq<char>,
    pub latest_version: Seq<char>,
    pub current_version: Seq<char>,
    pub status: Status,
}

impl View for ExecResult {
    type V = ResultView;

    open spec fn view(&self) -> ResultView {
        ResultView {
            name: self.name@,
            chart: self.chart@,
            latest_version: self.latest_version@,
            current_version: self.current_version@,
            status: self.status,
        }
    }
}

impl ExecResult {
    /// Puts the five fields of a verdict together, unchanged.
    pub fn new(
        name: String,
        chart: String,
        latest_version: String,
        current_version: String,
        status: Status,
    ) -> (result: Self)
        ensures
            result@ == (ResultView {
                name: name@,
                chart: chart@,
                latest_version: latest_version@,
                current_version: current_version@,
                status,
            }),
    {
        Self { name, chart, latest_version, current_version, status }
    }
}

} // verus!
