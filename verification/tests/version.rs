use chart_drift::version::{
    compare,
    is_valid,
    max,
    newer_of,
    normalize,
    relation_of,
    InvalidVersion,
    Relation,
};
use chart_drift::version_order::Operator;

fn s(text: &str) -> String {
    text.to_string()
}

#[test]
fn normalize_strips_a_leading_v() {
    assert_eq!(normalize("v1.2.3"), "1.2.3");
}

#[test]
fn normalize_strips_every_v() {
    assert_eq!(normalize("dev-v1.0v"), "de-1.0");
    assert_eq!(normalize("vvv"), "");
}

#[test]
fn normalize_keeps_other_text() {
    assert_eq!(normalize("1.2.3"), "1.2.3");
    assert_eq!(normalize(""), "");
    assert_eq!(normalize("V1.0"), "V1.0");
    assert_eq!(normalize("1.0-bêta"), "1.0-bêta");
}

#[test]
fn normalize_is_idempotent() {
    for raw in ["v1.2.3", "dev-v1.0v", "", "vvv", "1.0.0", "release-v2"] {
        let once = normalize(raw);
        assert_eq!(normalize(&once), once);
    }
}

#[test]
fn compare_orders_numeric_segments() {
    assert_eq!(compare("1.2.3", "1.2.4"), Ok(Relation::Less));
    assert_eq!(compare("1.2.3", "1.2.3"), Ok(Relation::Equal));
    assert_eq!(compare("1", "0.1"), Ok(Relation::Greater));
    assert_eq!(compare("1.10.0", "1.9.0"), Ok(Relation::Greater));
}

#[test]
fn compare_pads_the_shorter_version_with_zero() {
    assert_eq!(compare("1.2", "1.2.0"), Ok(Relation::Equal));
    assert_eq!(compare("1.2", "1.2.1"), Ok(Relation::Less));
}

#[test]
fn compare_is_inverse_when_swapped() {
    let versions = ["0.0.0", "1.0.0", "1.2", "1.2.0", "1.2.3", "2.0.0-rc1", "2.0.0", "10.1"];
    for a in versions {
        assert_eq!(compare(a, a), Ok(Relation::Equal));
        for b in versions {
            let forth = compare(a, b).unwrap();
            let back = compare(b, a).unwrap();
            let inverse = match forth {
                Relation::Less => Relation::Greater,
                Relation::Equal => Relation::Equal,
                Relation::Greater => Relation::Less,
            };
            assert_eq!(back, inverse);
        }
    }
}

#[test]
fn compare_rejects_text_without_a_number() {
    assert_eq!(compare("latest", "1.0.0"), Err(InvalidVersion { version: s("latest") }));
    assert_eq!(compare("1.0.0", "stable"), Err(InvalidVersion { version: s("stable") }));
    assert_eq!(compare("latest", "stable"), Err(InvalidVersion { version: s("latest") }));
}

#[test]
fn is_valid_tells_versions_from_other_text() {
    assert!(is_valid("1.2.3"));
    assert!(is_valid("0.0.0"));
    assert!(is_valid("1.0.0-rc1"));
    assert!(!is_valid("latest"));
}

#[test]
fn newer_of_follows_the_relation() {
    assert_eq!(newer_of(s("a"), s("b"), Relation::Less), "b");
    assert_eq!(newer_of(s("a"), s("b"), Relation::Equal), "a");
    assert_eq!(newer_of(s("a"), s("b"), Relation::Greater), "a");
}

#[test]
fn max_picks_the_newer_version() {
    assert_eq!(max(s("1.2.0"), s("1.3.0")), Ok(s("1.3.0")));
    assert_eq!(max(s("1.3.0"), s("1.2.0")), Ok(s("1.3.0")));
    assert_eq!(max(s("0.0.0"), s("0.1.0")), Ok(s("0.1.0")));
}

#[test]
fn max_returns_the_input_as_given() {
    assert_eq!(max(s("v2.0.0"), s("1.0.0")), Ok(s("v2.0.0")));
    assert_eq!(max(s("1.0.0"), s("v2.0.0")), Ok(s("v2.0.0")));
}

#[test]
fn max_keeps_the_first_on_a_tie() {
    assert_eq!(max(s("1.0"), s("1.0.0")), Ok(s("1.0")));
    assert_eq!(max(s("1.0.0"), s("1.0")), Ok(s("1.0.0")));
    assert_eq!(max(s("v1.0.0"), s("1.0.0")), Ok(s("v1.0.0")));
}

#[test]
fn max_is_idempotent() {
    for a in ["1.2.3", "v1.2.3", "0.0.0", "2.0.0-rc1"] {
        assert_eq!(max(s(a), s(a)), Ok(s(a)));
    }
}

#[test]
fn max_rejects_what_is_no_version() {
    assert_eq!(max(s("latest"), s("1.0.0")), Err(InvalidVersion { version: s("latest") }));
    assert_eq!(max(s("1.0.0"), s("stable")), Err(InvalidVersion { version: s("stable") }));
    assert_eq!(max(s("dev"), s("stable")), Err(InvalidVersion { version: s("dev") }));
}

#[test]
fn compare_is_consistent_on_unusual_texts() {
    let corpus = [
        "", "0", "0.0.0", "1", "1.0", "1.0.0", "01.2", "1.2.3", "1.2.3.4", "1.2.a", "1.a.2",
        "1.b.0", "1.5.1", "a.1", "1-rc1", "1.0.0-rc1", "1.0.0-RC2", "2.0.0-alpha.1",
        "2147483647", "2147483648", "99999999999999999999", "1alpha", "1.2alpha3", "latest",
        "stable", "dev", "é1", "1.é", "١.٢", "v1", "1..2", " 1.0 ", "1_0", "1+build", "x",
        "1.0.0.0.0", "0.0.0.0.1", "1.A", "1.a",
    ];
    for a in corpus {
        if is_valid(a) {
            assert_eq!(compare(a, a), Ok(Relation::Equal));
        }
        for b in corpus {
            let forth = compare(a, b);
            let back = compare(b, a);
            assert_eq!(forth.is_ok(), is_valid(a) && is_valid(b));
            match forth {
                Ok(rel) => {
                    let inverse = match rel {
                        Relation::Less => Relation::Greater,
                        Relation::Equal => Relation::Equal,
                        Relation::Greater => Relation::Less,
                    };
                    assert_eq!(back, Ok(inverse));
                }
                Err(e) => {
                    let first_bad = if is_valid(a) { b } else { a };
                    assert_eq!(e.version, first_bad);
                }
            }
        }
    }
}

#[test]
fn relation_of_reads_three_operators() {
    assert_eq!(relation_of(Operator::Lt), Some(Relation::Less));
    assert_eq!(relation_of(Operator::Eq), Some(Relation::Equal));
    assert_eq!(relation_of(Operator::Gt), Some(Relation::Greater));
    assert_eq!(relation_of(Operator::Ne), None);
    assert_eq!(relation_of(Operator::Le), None);
    assert_eq!(relation_of(Operator::Ge), None);
}
