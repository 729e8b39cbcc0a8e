//! Turning an installed version, the latest version and the exact-match flag
//! into a status.

use vstd::prelude::*;
use crate::resolve::{exact_match_spec, latest_spec, seed_version};
use crate::types::{ChartView, OfferView, Status};
use crate::version::{
    compare,
    compare_spec,
    is_valid,
    is_version,
    normalize,
    strip_v,
    InvalidVersion,
    Relation,
};

verus! {

/// The status of a release whose installed version the catalog lists, given
/// how that version compares with the latest one.
pub open spec fn status_of_spec(installed_to_latest: Relation) -> Status {
    match installed_to_latest {
        Relation::Less => Status::Outdated,
        Relation::Equal => Status::Uptodate,
        Relation::Greater => Status::Missing,
    }
}

/// The status of a release, `None` where the comparison it needs cannot be
/// made. Without an exact match the release is `Missing` and nothing is
/// compared; with one, the two versions are compared without their letters
/// `v`.
pub open spec fn classify_spec(installed: Seq<char>, latest: Seq<char>, exact: bool) -> Option<
    Status,
> {
    if !exact {
        Some(Status::Missing)
    } else {
        match compare_spec(strip_v(installed), strip_v(latest)) {
            Some(rel) => Some(status_of_spec(rel)),
            None => None,
        }
    }
}

/// The status of a listed release: older than the latest is `Outdated`, the
/// latest itself is `Uptodate`, and newer than anything on offer is `Missing`.
pub fn status_of(installed_to_latest: Relation) -> (status: Status)
    ensures
        status == status_of_spec(installed_to_latest),
{
    match installed_to_latest {
        Relation::Less => Status::Outdated,
        Relation::Equal => Status::Uptodate,
        Relation::Greater => Status::Missing,
    }
}

/// Classifies a release.
///
/// Without an exact match the answer is `Missing`, whatever the versions are.
/// With one, the installed version is compared with the latest, both without
/// their letters `v`. Fails exactly when that comparison is needed and one of
/// the two, so stripped, is no version, and then names the first such string
/// as it was given.
pub fn classify(installed: &str, latest: &str, exact_match_exists: bool) -> (outcome: Result<
    Status,
    InvalidVersion,
>)
    ensures
        outcome is Ok <==> !exact_match_exists || (is_version(strip_v(installed@)) && is_version(
            strip_v(latest@),
        )),
        outcome matches Ok(status) ==> classify_spec(installed@, latest@, exact_match_exists)
            == Some(status),
        outcome matches Err(e) ==> classify_spec(installed@, latest@, exact_match_exists) is None
            && e.version@ == (if is_version(strip_v(installed@)) {
            latest@
        } else {
            installed@
        }),
{
    if !exact_match_exists {
        return Ok(Status::Missing);
    }
    let plain_installed = normalize(installed);
    let plain_latest = normalize(latest);
    match compare(plain_installed.as_str(), plain_latest.as_str()) {
        Ok(rel) => Ok(status_of(rel)),
        Err(_) => {
            if is_valid(plain_installed.as_str()) {
                Err(InvalidVersion { version: String::from_str(latest) })
            } else {
                Err(InvalidVersion { version: String::from_str(installed) })
            }
        },
    }
}

/// An empty catalog offers `0.0.0`, lists nothing, and leaves every release
/// `Missing`.
pub proof fn lemma_empty_catalog(release: ChartView, installed: Seq<char>)
    ensures
        latest_spec(Seq::<OfferView>::empty()) == Ok::<Seq<char>, Seq<char>>(seed_version()),
        !exact_match_spec(release, Seq::<OfferView>::empty()),
        classify_spec(installed, seed_version(), false) == Some(Status::Missing),
{
}

} // verus!
