//! The latest version of a catalog does not depend on the order of its
//! entries, as long as the entries are ordered consistently and no two of
//! them are the same version.

use vstd::prelude::*;
use crate::resolve::{latest_spec, seed_version};
use crate::types::{offers_of, AvailableVersion, OfferView};
use crate::version::{
    compare,
    compare_spec,
    lemma_normalize_idempotent,
    max_spec,
    normalize,
    strip_v,
    Relation,
};

verus! {

/// The versions of a catalog as they are compared: each without its letters
/// `v`, in the catalog's order.
pub open spec fn plain_versions(catalog: Seq<OfferView>) -> Seq<Seq<char>> {
    catalog.map_values(|offer: OfferView| strip_v(offer.version))
}

/// Whether the first version is not newer than the second.
pub open spec fn at_most(a: Seq<char>, b: Seq<char>) -> bool {
    compare_spec(a, b) == Some(Relation::Less) || compare_spec(a, b) == Some(Relation::Equal)
}

/// Whether a text takes part in the search for the catalog's latest version:
/// the seed does, and so does every entry's plain version.
pub open spec fn takes_part(catalog: Seq<OfferView>, version: Seq<char>) -> bool {
    version == seed_version() || plain_versions(catalog).contains(version)
}

/// Whether the versions that take part are ordered consistently: any two of
/// them can be compared, comparing them the other way round gives the inverse
/// outcome, and "not newer than" carries over from one pair to the next.
pub open spec fn consistently_ordered(catalog: Seq<OfferView>) -> bool {
    &&& forall|a: Seq<char>, b: Seq<char>|
        takes_part(catalog, a) && takes_part(catalog, b) ==> match #[trigger] compare_spec(a, b) {
            Some(rel) => compare_spec(b, a) == Some(rel.inverse()),
            None => false,
        }
    &&& forall|a: Seq<char>, b: Seq<char>, c: Seq<char>|
        takes_part(catalog, a) && takes_part(catalog, b) && takes_part(catalog, c) && #[trigger] at_most(
            a,
            b,
        ) && #[trigger] at_most(b, c) ==> at_most(a, c)
}

/// Whether no two entries of the catalog are the same version.
pub open spec fn distinct_valued(catalog: Seq<OfferView>) -> bool {
    forall|i: int, j: int|
        0 <= i < catalog.len() && 0 <= j < catalog.len() && i != j ==> compare_spec(
            #[trigger] plain_versions(catalog)[i],
            #[trigger] plain_versions(catalog)[j],
        ) != Some(Relation::Equal)
}

/// Whether `top` is what the search over the first `n` entries must end
/// with: the seed where no entry so far is newer than it, else an entry that
/// is newer than the seed and that no entry so far exceeds.
spec fn tops(catalog: Seq<OfferView>, n: int, top: Seq<char>) -> bool {
    &&& takes_part(catalog, top)
    &&& strip_v(top) == top
    &&& top == seed_version() || compare_spec(seed_version(), top) == Some(Relation::Less)
    &&& forall|i: int| 0 <= i < n ==> at_most(#[trigger] plain_versions(catalog)[i], top)
}

/// The seed holds no letter `v`.
proof fn lemma_seed_is_plain()
    ensures
        strip_v(seed_version()) == seed_version(),
{
    reveal_strlit("0.0.0");
    reveal_with_fuel(Seq::filter, 6);
    assert(strip_v(seed_version()) =~= seed_version());
}

/// On a consistently ordered catalog the search over the first `n` entries
/// succeeds, and its result tops those entries.
proof fn lemma_latest_tops(catalog: Seq<OfferView>, n: int)
    requires
        0 <= n <= catalog.len(),
        consistently_ordered(catalog),
    ensures
        latest_spec(catalog.take(n)) is Ok,
        tops(catalog, n, latest_spec(catalog.take(n))->Ok_0),
    decreases n,
{
    let seed = seed_version();
    let versions = plain_versions(catalog);
    lemma_seed_is_plain();
    if n == 0 {
        assert(catalog.take(0) =~= Seq::<OfferView>::empty());
    } else {
        lemma_latest_tops(catalog, n - 1);
        let earlier = catalog.take(n - 1);
        assert(catalog.take(n).drop_last() =~= earlier);
        assert(catalog.take(n).last() == catalog[n - 1]);
        let so_far = latest_spec(earlier)->Ok_0;
        let next = versions[n - 1];
        assert(next == strip_v(catalog[n - 1].version));
        lemma_normalize_idempotent(catalog[n - 1].version);
        assert(versions.contains(next));
        assert(takes_part(catalog, next));
        assert(takes_part(catalog, seed));
        assert(max_spec(so_far, next) == match compare_spec(so_far, next) {
            Some(Relation::Less) => Some(next),
            Some(_) => Some(so_far),
            None => None,
        });
        assert(compare_spec(so_far, next) is Some);
        assert(compare_spec(next, so_far) == Some(compare_spec(so_far, next)->0.inverse()));
        assert(compare_spec(next, next) is Some);
        assert(at_most(next, next));
        if compare_spec(so_far, next) == Some(Relation::Less) {
            assert(at_most(so_far, next));
            assert forall|i: int| 0 <= i < n implies at_most(#[trigger] versions[i], next) by {
                if i < n - 1 {
                    assert(versions.contains(versions[i]));
                    assert(at_most(versions[i], so_far));
                }
            }
            if so_far != seed {
                assert(at_most(seed, so_far));
                assert(at_most(seed, next));
                assert(compare_spec(seed, next) is Some);
                if compare_spec(seed, next) == Some(Relation::Equal) {
                    assert(compare_spec(next, seed) == Some(Relation::Equal));
                    assert(at_most(next, seed));
                    assert(at_most(next, so_far));
                }
            }
        } else {
            assert(at_most(next, so_far));
        }
    }
}

/// Folding a catalog into its latest version is independent of the order of
/// its entries: two catalogs that hold the same entries, are consistently
/// ordered and hold no version twice have the same latest version.
///
/// The tie-break of the fold keeps the earlier of two equal versions, which
/// is why catalogs with a version twice are left out.
pub proof fn lemma_latest_order_independent(first: Seq<OfferView>, second: Seq<OfferView>)
    requires
        first.to_multiset() == second.to_multiset(),
        consistently_ordered(first),
        distinct_valued(first),
    ensures
        latest_spec(first) is Ok,
        latest_spec(first) == latest_spec(second),
{
    let seed = seed_version();
    assert forall|offer: OfferView| first.contains(offer) == second.contains(offer) by {
        vstd::seq_lib::to_multiset_contains(first, offer);
        vstd::seq_lib::to_multiset_contains(second, offer);
    }
    assert forall|version: Seq<char>|
        plain_versions(first).contains(version) <==> plain_versions(second).contains(
            version,
        ) by {
        if plain_versions(first).contains(version) {
            lemma_same_plain_versions(first, second, version);
        }
        if plain_versions(second).contains(version) {
            lemma_same_plain_versions(second, first, version);
        }
    }
    assert forall|version: Seq<char>| takes_part(first, version) == takes_part(
        second,
        version,
    ) by {}
    assert(consistently_ordered(second));
    lemma_latest_tops(first, first.len() as int);
    lemma_latest_tops(second, second.len() as int);
    assert(first.take(first.len() as int) =~= first);
    assert(second.take(second.len() as int) =~= second);
    let top1 = latest_spec(first)->Ok_0;
    let top2 = latest_spec(second)->Ok_0;
    let versions1 = plain_versions(first);
    let versions2 = plain_versions(second);
    assert(takes_part(first, seed));
    if top1 != seed && top2 != seed {
        let k = choose|k: int| 0 <= k < versions1.len() && versions1[k] == top1;
        let j = choose|j: int| 0 <= j < versions1.len() && versions1[j] == top2;
        let l = choose|l: int| 0 <= l < versions2.len() && versions2[l] == top1;
        assert(at_most(versions1[j], top1));
        assert(at_most(versions2[l], top2));
        assert(compare_spec(top1, top2) is Some);
        assert(compare_spec(top1, top2) == Some(Relation::Equal));
        assert(k == j);
    } else if top1 != seed {
        let l = choose|l: int| 0 <= l < versions2.len() && versions2[l] == top1;
        assert(at_most(versions2[l], top2));
        assert(compare_spec(seed, top1) is Some);
    } else if top2 != seed {
        let j = choose|j: int| 0 <= j < versions1.len() && versions1[j] == top2;
        assert(at_most(versions1[j], top1));
        assert(compare_spec(seed, top2) is Some);
    }
}

/// A plain version of one catalog is a plain version of every catalog that
/// holds the same entries.
proof fn lemma_same_plain_versions(
    first: Seq<OfferView>,
    second: Seq<OfferView>,
    version: Seq<char>,
)
    requires
        forall|offer: OfferView| first.contains(offer) ==> second.contains(offer),
        plain_versions(first).contains(version),
    ensures
        plain_versions(second).contains(version),
{
    let i = choose|i: int| 0 <= i < first.len() && plain_versions(first)[i] == version;
    assert(first.contains(first[i]));
    let j = choose|j: int| 0 <= j < second.len() && second[j] == first[i];
    assert(plain_versions(second)[j] == version);
}

/// The versions that take part in the search, in a row: the seed, then the
/// plain version of every entry in the catalog's order.
pub open spec fn contenders(catalog: Seq<OfferView>) -> Seq<Seq<char>> {
    seq![seed_version()] + plain_versions(catalog)
}

/// The characters of each string, in order.
spec fn views(texts: Seq<String>) -> Seq<Seq<char>> {
    texts.map_values(|text: String| text@)
}

/// Whether two versions can be compared and the two directions agree.
spec fn agree(a: Seq<char>, b: Seq<char>) -> bool {
    match compare_spec(a, b) {
        Some(rel) => compare_spec(b, a) == Some(rel.inverse()),
        None => false,
    }
}

/// Whether the version at `i` agrees with each of the first `n`.
spec fn agrees_with_first(row: Seq<Seq<char>>, i: int, n: int) -> bool {
    forall|j: int| 0 <= j < n ==> agree(row[i], #[trigger] row[j])
}

/// Whether "not newer than" carries over from the first pair to the second.
spec fn carries_over(a: Seq<char>, b: Seq<char>, c: Seq<char>) -> bool {
    at_most(a, b) && at_most(b, c) ==> at_most(a, c)
}

/// Whether it carries over from the pair at `i` and `j` to each of the first
/// `n`.
spec fn carries_to_first(row: Seq<Seq<char>>, i: int, j: int, n: int) -> bool {
    forall|k: int| 0 <= k < n ==> carries_over(row[i], row[j], #[trigger] row[k])
}

/// Whether it carries over from the version at `i` through each of the first
/// `m` to every version of the row.
spec fn carries_through_first(row: Seq<Seq<char>>, i: int, m: int) -> bool {
    forall|j: int| 0 <= j < m ==> #[trigger] carries_to_first(row, i, j, row.len() as int)
}

/// Whether the entry at `i` is the same version as none of the entries
/// before `n`; the seed, which stands first in the row, is no entry.
spec fn differs_from_first(row: Seq<Seq<char>>, i: int, n: int) -> bool {
    forall|j: int|
        1 <= j < n && j != i ==> compare_spec(row[i], #[trigger] row[j]) != Some(Relation::Equal)
}

/// Consistent order, said of the row of contenders place by place.
proof fn lemma_consistent_by_place(catalog: Seq<OfferView>)
    ensures
        consistently_ordered(catalog) <==> {
            let row = contenders(catalog);
            &&& forall|i: int|
                0 <= i < row.len() ==> #[trigger] agrees_with_first(row, i, row.len() as int)
            &&& forall|i: int|
                0 <= i < row.len() ==> #[trigger] carries_through_first(row, i, row.len() as int)
        },
{
    let row = contenders(catalog);
    let n = row.len() as int;
    let plain = plain_versions(catalog);
    assert forall|i: int| 0 <= i < n implies takes_part(catalog, #[trigger] row[i]) by {
        if i > 0 {
            assert(row[i] == plain[i - 1]);
        }
    }
    assert forall|a: Seq<char>| takes_part(catalog, a) implies exists|i: int|
        0 <= i < n && row[i] == a by {
        if a == seed_version() {
            assert(row[0] == a);
        } else {
            let p = choose|p: int| 0 <= p < plain.len() && plain[p] == a;
            assert(row[p + 1] == a);
        }
    }
    if consistently_ordered(catalog) {
        assert forall|i: int| 0 <= i < n implies #[trigger] agrees_with_first(row, i, n) by {
            assert forall|j: int| 0 <= j < n implies agree(row[i], #[trigger] row[j]) by {
                assert(takes_part(catalog, row[i]) && takes_part(catalog, row[j]));
            }
        }
        assert forall|i: int| 0 <= i < n implies #[trigger] carries_through_first(row, i, n) by {
            assert forall|j: int| 0 <= j < n implies #[trigger] carries_to_first(row, i, j, n) by {
                assert forall|k: int| 0 <= k < n implies carries_over(
                    row[i],
                    row[j],
                    #[trigger] row[k],
                ) by {
                    assert(takes_part(catalog, row[i]) && takes_part(catalog, row[j])
                        && takes_part(catalog, row[k]));
                }
            }
        }
    }
    if (forall|i: int| 0 <= i < n ==> #[trigger] agrees_with_first(row, i, n)) && (forall|i: int|
        0 <= i < n ==> #[trigger] carries_through_first(row, i, n)) {
        assert forall|a: Seq<char>, b: Seq<char>|
            takes_part(catalog, a) && takes_part(catalog, b) implies match #[trigger] compare_spec(
            a,
            b,
        ) {
            Some(rel) => compare_spec(b, a) == Some(rel.inverse()),
            None => false,
        } by {
            let i = choose|i: int| 0 <= i < n && row[i] == a;
            let j = choose|j: int| 0 <= j < n && row[j] == b;
            assert(agrees_with_first(row, i, n));
            assert(agree(row[i], row[j]));
        }
        assert forall|a: Seq<char>, b: Seq<char>, c: Seq<char>|
            takes_part(catalog, a) && takes_part(catalog, b) && takes_part(catalog, c)
                && #[trigger] at_most(a, b) && #[trigger] at_most(b, c) implies at_most(a, c) by {
            let i = choose|i: int| 0 <= i < n && row[i] == a;
            let j = choose|j: int| 0 <= j < n && row[j] == b;
            let k = choose|k: int| 0 <= k < n && row[k] == c;
            assert(carries_through_first(row, i, n));
            assert(carries_to_first(row, i, j, n));
            assert(carries_over(row[i], row[j], row[k]));
        }
    }
}

/// No version twice, said of the row of contenders place by place.
proof fn lemma_distinct_by_place(catalog: Seq<OfferView>)
    ensures
        distinct_valued(catalog) <==> {
            let row = contenders(catalog);
            forall|i: int|
                1 <= i < row.len() ==> #[trigger] differs_from_first(row, i, row.len() as int)
        },
{
    let row = contenders(catalog);
    let n = row.len() as int;
    let plain = plain_versions(catalog);
    assert forall|i: int| 1 <= i < n implies #[trigger] row[i] == plain[i - 1] by {}
    if distinct_valued(catalog) {
        assert forall|i: int| 1 <= i < n implies #[trigger] differs_from_first(row, i, n) by {
            assert forall|j: int| 1 <= j < n && j != i implies compare_spec(
                row[i],
                #[trigger] row[j],
            ) != Some(Relation::Equal) by {
                assert(row[i] == plain[i - 1] && row[j] == plain[j - 1]);
            }
        }
    }
    if forall|i: int| 1 <= i < n ==> #[trigger] differs_from_first(row, i, n) {
        assert forall|i: int, j: int|
            0 <= i < catalog.len() && 0 <= j < catalog.len() && i != j implies compare_spec(
            #[trigger] plain[i],
            #[trigger] plain[j],
        ) != Some(Relation::Equal) by {
            assert(differs_from_first(row, i + 1, n));
            assert(row[i + 1] == plain[i] && row[j + 1] == plain[j]);
        }
    }
}

/// Lays out the versions that take part in the search: `0.0.0`, then every
/// entry's version without its letters `v`.
fn contenders_of(catalog: &Vec<AvailableVersion>) -> (texts: Vec<String>)
    ensures
        views(texts@) == contenders(offers_of(catalog@)),
{
    let ghost plain = plain_versions(offers_of(catalog@));
    let mut texts: Vec<String> = Vec::new();
    texts.push(String::from_str("0.0.0"));
    let mut i: usize = 0;
    while i < catalog.len()
        invariant
            i <= catalog.len(),
            plain == plain_versions(offers_of(catalog@)),
            texts@.len() == i + 1,
            views(texts@) =~= seq![seed_version()] + plain.take(i as int),
        decreases catalog.len() - i,
    {
        let ghost before = views(texts@);
        texts.push(normalize(catalog[i].version.as_str()));
        proof {
            assert(plain[i as int] == strip_v(catalog@[i as int].version@));
            assert(views(texts@) =~= before.push(plain[i as int]));
            assert(plain.take(i + 1) =~= plain.take(i as int).push(plain[i as int]));
        }
        i += 1;
    }
    assert(plain.take(catalog.len() as int) =~= plain);
    texts
}

/// Tells whether the first version is not newer than the second.
fn not_newer(a: &str, b: &str) -> (yes: bool)
    ensures
        yes == at_most(a@, b@),
{
    match compare(a, b) {
        Ok(Relation::Less) => true,
        Ok(Relation::Equal) => true,
        _ => false,
    }
}

/// Tells whether the version at `i` can be compared with every version of
/// the row.
fn agrees_with_all(texts: &Vec<String>, i: usize) -> (ok: bool)
    requires
        i < texts.len(),
    ensures
        ok == agrees_with_first(views(texts@), i as int, texts.len() as int),
{
    let ghost row = views(texts@);
    let mut j: usize = 0;
    while j < texts.len()
        invariant
            i < texts.len(),
            j <= texts.len(),
            row == views(texts@),
            agrees_with_first(row, i as int, j as int),
        decreases texts.len() - j,
    {
        if compare(texts[i].as_str(), texts[j].as_str()).is_err() {
            assert(!agree(row[i as int], row[j as int]));
            return false;
        }
        assert(agree(row[i as int], row[j as int]));
        j += 1;
    }
    true
}

/// Tells whether "not newer than" carries over from the pair at `i` and `j`
/// to every version of the row.
fn carries_to_all(texts: &Vec<String>, i: usize, j: usize) -> (ok: bool)
    requires
        i < texts.len(),
        j < texts.len(),
    ensures
        ok == carries_to_first(views(texts@), i as int, j as int, texts.len() as int),
{
    let ghost row = views(texts@);
    if !not_newer(texts[i].as_str(), texts[j].as_str()) {
        return true;
    }
    let mut k: usize = 0;
    while k < texts.len()
        invariant
            i < texts.len(),
            j < texts.len(),
            k <= texts.len(),
            row == views(texts@),
            at_most(row[i as int], row[j as int]),
            carries_to_first(row, i as int, j as int, k as int),
        decreases texts.len() - k,
    {
        if not_newer(texts[j].as_str(), texts[k].as_str()) && !not_newer(
            texts[i].as_str(),
            texts[k].as_str(),
        ) {
            assert(!carries_over(row[i as int], row[j as int], row[k as int]));
            return false;
        }
        assert(carries_over(row[i as int], row[j as int], row[k as int]));
        k += 1;
    }
    true
}

/// Tells whether "not newer than" carries over from the version at `i`
/// through every version to every version.
fn carries_through_all(texts: &Vec<String>, i: usize) -> (ok: bool)
    requires
        i < texts.len(),
    ensures
        ok == carries_through_first(views(texts@), i as int, texts.len() as int),
{
    let ghost row = views(texts@);
    let mut j: usize = 0;
    while j < texts.len()
        invariant
            i < texts.len(),
            j <= texts.len(),
            row == views(texts@),
            carries_through_first(row, i as int, j as int),
        decreases texts.len() - j,
    {
        assert(row.len() == texts@.len());
        if !carries_to_all(texts, i, j) {
            return false;
        }
        j += 1;
    }
    true
}

/// Tells whether the entry at `i` is the same version as no other entry.
fn differs_from_all(texts: &Vec<String>, i: usize) -> (ok: bool)
    requires
        1 <= i < texts.len(),
    ensures
        ok == differs_from_first(views(texts@), i as int, texts.len() as int),
{
    let ghost row = views(texts@);
    let mut j: usize = 1;
    while j < texts.len()
        invariant
            1 <= i < texts.len(),
            1 <= j <= texts.len(),
            row == views(texts@),
            differs_from_first(row, i as int, j as int),
        decreases texts.len() - j,
    {
        if j != i {
            match compare(texts[i].as_str(), texts[j].as_str()) {
                Ok(Relation::Equal) => {
                    assert(compare_spec(row[i as int], row[j as int]) == Some(Relation::Equal));
                    return false;
                },
                _ => {},
            }
        }
        j += 1;
    }
    true
}

/// Tells whether the versions that take part in the search for the catalog's
/// latest version are ordered consistently: any two can be compared, and
/// "not newer than" carries over from one pair to the next.
pub fn ordered_consistently(catalog: &Vec<AvailableVersion>) -> (ok: bool)
    ensures
        ok == consistently_ordered(offers_of(catalog@)),
{
    let texts = contenders_of(catalog);
    let ghost row = views(texts@);
    proof {
        lemma_consistent_by_place(offers_of(catalog@));
        assert(row.len() == texts@.len());
    }
    let mut i: usize = 0;
    while i < texts.len()
        invariant
            i <= texts.len(),
            row == views(texts@),
            row == contenders(offers_of(catalog@)),
            row.len() == texts@.len(),
            forall|p: int| 0 <= p < i ==> #[trigger] agrees_with_first(row, p, row.len() as int),
            forall|p: int|
                0 <= p < i ==> #[trigger] carries_through_first(row, p, row.len() as int),
        decreases texts.len() - i,
    {
        proof {
            lemma_consistent_by_place(offers_of(catalog@));
        }
        if !agrees_with_all(&texts, i) {
            return false;
        }
        if !carries_through_all(&texts, i) {
            return false;
        }
        i += 1;
    }
    true
}

/// Tells whether no two entries of the catalog are the same version.
pub fn holds_no_version_twice(catalog: &Vec<AvailableVersion>) -> (ok: bool)
    ensures
        ok == distinct_valued(offers_of(catalog@)),
{
    let texts = contenders_of(catalog);
    let ghost row = views(texts@);
    proof {
        lemma_distinct_by_place(offers_of(catalog@));
        assert(row.len() == texts@.len());
    }
    let mut i: usize = 1;
    while i < texts.len()
        invariant
            1 <= i <= texts.len(),
            row == views(texts@),
            row == contenders(offers_of(catalog@)),
            row.len() == texts@.len(),
            forall|p: int| 1 <= p < i ==> #[trigger] differs_from_first(row, p, row.len() as int),
        decreases texts.len() - i,
    {
        proof {
            lemma_distinct_by_place(offers_of(catalog@));
        }
        if !differs_from_all(&texts, i) {
            return false;
        }
        i += 1;
    }
    true
}

/// Tells whether the latest version of the catalog is sure to be the same in
/// whatever order the index hands out the entries: it is where the versions
/// are ordered consistently and none occurs twice.
pub fn latest_is_order_independent(catalog: &Vec<AvailableVersion>) -> (ok: bool)
    ensures
        ok == (consistently_ordered(offers_of(catalog@)) && distinct_valued(offers_of(catalog@))),
        ok ==> forall|other: Seq<OfferView>|
            other.to_multiset() == offers_of(catalog@).to_multiset() ==> #[trigger] latest_spec(
                other,
            ) == latest_spec(offers_of(catalog@)),
{
    let ok = ordered_consistently(catalog) && holds_no_version_twice(catalog);
    proof {
        if ok {
            assert forall|other: Seq<OfferView>|
                other.to_multiset() == offers_of(catalog@).to_multiset() implies #[trigger] latest_spec(
                other,
            ) == latest_spec(offers_of(catalog@)) by {
                lemma_latest_order_independent(offers_of(catalog@), other);
            }
        }
    }
    ok
}

} // verus!
