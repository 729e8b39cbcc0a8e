//! Reducing a catalog to its latest version, and finding the installed version
//! in it.

use vstd::prelude::*;
use crate::types::{offers_of, AvailableVersion, ChartView, HelmChart, OfferView};
use crate::version::{
    compare,
    is_valid,
    is_version,
    lemma_normalize_idempotent,
    max_spec,
    newer_of,
    normalize,
    strip_v,
    InvalidVersion,
};

verus! {

/// What a catalog says of one release.
#[derive(Clone, Debug, PartialEq, Eq)]
pub struct ResolvedOutcome {
    /// The newest version that the catalog offers, `0.0.0` where it offers none.
    pub latest_version: String,
    /// Whether the catalog lists the installed version itself.
    pub exact_match_exists: bool,
}

/// The version that every search for the latest one starts from.
pub open spec fn seed_version() -> Seq<char> {
    "0.0.0"@
}

/// The latest version of a catalog, found by taking the newer of the version
/// so far and the next entry without its letters `v`, entry by entry from the
/// seed. `Err` holds the text that stopped the search: the version so far
/// where that is no version, else the entry's version as the catalog has it.
pub open spec fn latest_spec(catalog: Seq<OfferView>) -> Result<Seq<char>, Seq<char>>
    decreases catalog.len(),
{
    if catalog.len() == 0 {
        Ok(seed_version())
    } else {
        match latest_spec(catalog.drop_last()) {
            Err(bad) => Err(bad),
            Ok(so_far) => {
                let next = strip_v(catalog.last().version);
                match max_spec(so_far, next) {
                    Some(newer) => Ok(newer),
                    None => Err(
                        if is_version(strip_v(so_far)) {
                            catalog.last().version
                        } else {
                            so_far
                        },
                    ),
                }
            },
        }
    }
}

/// Whether an entry lists this very release: the same chart, and the same
/// version letter for letter once both are without their letters `v`.
pub open spec fn lists(offer: OfferView, release: ChartView) -> bool {
    release.chart == Some(offer.chart) && release.version is Some && strip_v(release.version->0)
        == strip_v(offer.version)
}

/// Whether some entry of the catalog lists the release.
pub open spec fn exact_match_spec(release: ChartView, catalog: Seq<OfferView>) -> bool {
    exists|i: int| 0 <= i < catalog.len() && lists(#[trigger] catalog[i], release)
}

/// Tells whether one catalog entry lists the release.
pub fn is_listed_by(release: &HelmChart, offer: &AvailableVersion) -> (listed: bool)
    ensures
        listed == lists(offer@, release@),
{
    match (&release.chart, &release.version) {
        (Some(chart), Some(version)) => {
            let installed = normalize(version.as_str());
            let offered = normalize(offer.version.as_str());
            *chart == offer.chart && installed == offered
        },
        _ => false,
    }
}

/// Folds the catalog into its latest version.
///
/// Starts from `0.0.0` and keeps, entry by entry, the newer of the version so
/// far and the entry without its letters `v`; on a tie the version so far
/// stays. Fails as soon as one step cannot be made, with the version that
/// could not be read, as the catalog has it.
pub fn latest_version(catalog: &Vec<AvailableVersion>) -> (outcome: Result<String, InvalidVersion>)
    ensures
        match latest_spec(offers_of(catalog@)) {
            Ok(latest) => outcome matches Ok(found) && found@ == latest,
            Err(bad) => outcome matches Err(e) && e.version@ == bad,
        },
{
    let ghost offers = offers_of(catalog@);
    let mut current = String::from_str("0.0.0");
    let mut i: usize = 0;
    assert(offers.subrange(0, 0) =~= Seq::<OfferView>::empty());
    while i < catalog.len()
        invariant
            i <= catalog.len(),
            offers == offers_of(catalog@),
            latest_spec(offers.subrange(0, i as int)) == Ok::<Seq<char>, Seq<char>>(current@),
        decreases catalog.len() - i,
    {
        proof {
            let longer = offers.subrange(0, i + 1);
            assert(longer.drop_last() =~= offers.subrange(0, i as int));
            assert(longer.last() == catalog@[i as int]@);
        }
        let next = normalize(catalog[i].version.as_str());
        let so_far = normalize(current.as_str());
        match compare(so_far.as_str(), next.as_str()) {
            Ok(rel) => {
                proof {
                    lemma_normalize_idempotent(catalog@[i as int].version@);
                }
                current = newer_of(current, next, rel);
            },
            Err(_) => {
                proof {
                    lemma_normalize_idempotent(catalog@[i as int].version@);
                    lemma_latest_stays_failed(offers, i + 1);
                }
                if is_valid(so_far.as_str()) {
                    return Err(InvalidVersion { version: catalog[i].version.clone() });
                } else {
                    return Err(InvalidVersion { version: current });
                }
            },
        }
        i += 1;
    }
    assert(offers.subrange(0, catalog.len() as int) =~= offers);
    Ok(current)
}

/// A search that has failed on the first entries fails in the same way on the
/// whole catalog.
proof fn lemma_latest_stays_failed(catalog: Seq<OfferView>, n: int)
    requires
        0 <= n <= catalog.len(),
        latest_spec(catalog.subrange(0, n)) is Err,
    ensures
        latest_spec(catalog) == latest_spec(catalog.subrange(0, n)),
    decreases catalog.len() - n,
{
    if n < catalog.len() {
        let longer = catalog.subrange(0, n + 1);
        assert(longer.drop_last() =~= catalog.subrange(0, n));
        lemma_latest_stays_failed(catalog, n + 1);
    } else {
        assert(catalog.subrange(0, n) =~= catalog);
    }
}

/// Tells whether some entry of the catalog lists the release.
pub fn exact_match_exists(release: &HelmChart, catalog: &Vec<AvailableVersion>) -> (found: bool)
    ensures
        found == exact_match_spec(release@, offers_of(catalog@)),
{
    let mut i: usize = 0;
    while i < catalog.len()
        invariant
            i <= catalog.len(),
            forall|j: int| 0 <= j < i ==> !lists(#[trigger] offers_of(catalog@)[j], release@),
        decreases catalog.len() - i,
    {
        if is_listed_by(release, &catalog[i]) {
            assert(lists(offers_of(catalog@)[i as int], release@));
            return true;
        }
        i += 1;
    }
    false
}

/// Says what the catalog holds for a release: the latest version on offer and
/// whether the installed version itself is listed.
///
/// The two answers are independent: a listed version need not be the latest.
/// An empty catalog gives `0.0.0` and no match. Fails exactly when the search
/// for the latest version fails, with the text that stopped it.
pub fn resolve(release: &HelmChart, catalog: &Vec<AvailableVersion>) -> (outcome: Result<
    ResolvedOutcome,
    InvalidVersion,
>)
    ensures
        match latest_spec(offers_of(catalog@)) {
            Ok(latest) => outcome matches Ok(resolved) && resolved.latest_version@ == latest
                && resolved.exact_match_exists == exact_match_spec(
                release@,
                offers_of(catalog@),
            ),
            Err(bad) => outcome matches Err(e) && e.version@ == bad,
        },
{
    match latest_version(catalog) {
        Ok(latest) => Ok(
            ResolvedOutcome {
                latest_version: latest,
                exact_match_exists: exact_match_exists(release, catalog),
            },
        ),
        Err(e) => Err(e),
    }
}

} // verus!
