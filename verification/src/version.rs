//! Version strings: normalising them, comparing them, picking the newer one.

use vstd::prelude::*;
use crate::version_order::{parses, relate, version_parses, version_relation, Operator};

verus! {

/// The outcome of comparing a first version with a second.
#[derive(Clone, Copy, Debug, PartialEq, Eq, Structural)]
pub enum Relation {
    Less,
    Equal,
    Greater,
}

impl Relation {
    /// The outcome seen from the other side.
    pub open spec fn inverse(self) -> Relation {
        match self {
            Relation::Less => Relation::Greater,
            Relation::Equal => Relation::Equal,
            Relation::Greater => Relation::Less,
        }
    }
}

/// A version string that cannot be read as a version.
#[derive(Clone, Debug, PartialEq, Eq)]
pub struct InvalidVersion {
    /// The offending text, as it was given.
    pub version: String,
}

/// The text without any letter `v`.
pub open spec fn strip_v(raw: Seq<char>) -> Seq<char> {
    raw.filter(|c: char| c != 'v')
}

/// Whether a text can be compared as a version.
pub open spec fn is_version(text: Seq<char>) -> bool {
    version_parses(text)
}

/// Of two texts that are not both versions, the first that is none.
pub open spec fn first_invalid(a: Seq<char>, b: Seq<char>) -> Seq<char> {
    if is_version(a) {
        b
    } else {
        a
    }
}

/// The outcome that an operator stands for, where it stands for one: `Lt`,
/// `Eq` and `Gt` do, the operators that only serve to test an outcome do not.
pub open spec fn relation_of_spec(op: Operator) -> Option<Relation> {
    match op {
        Operator::Lt => Some(Relation::Less),
        Operator::Eq => Some(Relation::Equal),
        Operator::Gt => Some(Relation::Greater),
        _ => None,
    }
}

/// How two texts compare as versions; `None` where one of them is no version.
pub open spec fn compare_spec(a: Seq<char>, b: Seq<char>) -> Option<Relation> {
    if is_version(a) && is_version(b) {
        match version_relation(a, b) {
            Some(op) => relation_of_spec(op),
            None => None,
        }
    } else {
        None
    }
}

/// The newer of two versions: the second where the first is less, else the
/// first, each compared without its letters `v` and handed back as given.
pub open spec fn max_spec(a: Seq<char>, b: Seq<char>) -> Option<Seq<char>> {
    match compare_spec(strip_v(a), strip_v(b)) {
        Some(Relation::Less) => Some(b),
        Some(_) => Some(a),
        None => None,
    }
}

/// Stripping one more character: it is kept unless it is a `v`.
proof fn lemma_strip_v_step(raw: Seq<char>, i: int)
    requires
        0 <= i < raw.len(),
    ensures
        strip_v(raw.subrange(0, i + 1)) == if raw[i] != 'v' {
            strip_v(raw.subrange(0, i)) + raw.subrange(i, i + 1)
        } else {
            strip_v(raw.subrange(0, i))
        },
{
    reveal(Seq::filter);
    let longer = raw.subrange(0, i + 1);
    assert(longer.drop_last() =~= raw.subrange(0, i));
    assert(longer.last() == raw[i]);
    assert(raw.subrange(i, i + 1) =~= seq![raw[i]]);
    assert(strip_v(raw.subrange(0, i)).push(raw[i]) =~= strip_v(raw.subrange(0, i)) + seq![raw[i]]);
}

/// Stripping a stripped text changes nothing: normalising is idempotent.
pub proof fn lemma_normalize_idempotent(raw: Seq<char>)
    ensures
        strip_v(strip_v(raw)) == strip_v(raw),
    decreases raw.len(),
{
    reveal(Seq::filter);
    if raw.len() > 0 {
        lemma_normalize_idempotent(raw.drop_last());
        let shorter = strip_v(raw.drop_last());
        if raw.last() != 'v' {
            assert(shorter.push(raw.last()).drop_last() =~= shorter);
        }
    }
}

/// The newer of a version and itself is that version: wherever `max` has an
/// answer for a string paired with itself, the answer is that string.
pub proof fn lemma_max_idempotent(a: Seq<char>)
    ensures
        max_spec(a, a) is Some ==> max_spec(a, a) == Some(a),
{
}

/// Removes every letter `v` from the text, wherever it stands, and keeps the
/// rest in order.
pub fn normalize(raw: &str) -> (out: String)
    ensures
        out@ == strip_v(raw@),
{
    let n: usize = raw.unicode_len();
    let mut out = String::new();
    let mut i: usize = 0;
    assert(raw@.subrange(0, 0) =~= Seq::<char>::empty());
    while i < n
        invariant
            n == raw@.len(),
            i <= n,
            out@ == strip_v(raw@.subrange(0, i as int)),
        decreases n - i,
    {
        proof {
            lemma_strip_v_step(raw@, i as int);
        }
        if raw.get_char(i) != 'v' {
            out.append(raw.substring_char(i, i + 1));
        }
        i += 1;
    }
    assert(raw@.subrange(0, n as int) =~= raw@);
    out
}

/// Tells whether the text can be compared as a version.
pub fn is_valid(text: &str) -> (valid: bool)
    ensures
        valid == is_version(text@),
{
    parses(text)
}

/// Reads a comparison operator as an outcome: `Lt` is `Less`, `Eq` is
/// `Equal`, `Gt` is `Greater`, and no other operator is an outcome.
pub fn relation_of(op: Operator) -> (outcome: Option<Relation>)
    ensures
        outcome == relation_of_spec(op),
{
    match op {
        Operator::Lt => Some(Relation::Less),
        Operator::Eq => Some(Relation::Equal),
        Operator::Gt => Some(Relation::Greater),
        Operator::Ne => None,
        Operator::Le => None,
        Operator::Ge => None,
    }
}

/// Compares two version strings as they stand.
///
/// Fails exactly when one of the two is no version, and then names the first
/// that is not. Comparing the other way round gives the inverse outcome, and a
/// version compared with itself is `Equal`.
pub fn compare(a: &str, b: &str) -> (outcome: Result<Relation, InvalidVersion>)
    ensures
        outcome is Ok <==> is_version(a@) && is_version(b@),
        outcome matches Ok(rel) ==> compare_spec(a@, b@) == Some(rel) && compare_spec(b@, a@)
            == Some(rel.inverse()),
        outcome matches Err(e) ==> compare_spec(a@, b@) is None && e.version@ == first_invalid(
            a@,
            b@,
        ),
        a@ == b@ ==> outcome is Ok ==> outcome == Ok::<Relation, InvalidVersion>(Relation::Equal),
{
    match relate(a, b) {
        Some(op) => match relation_of(op) {
            Some(rel) => Ok(rel),
            None => vstd::pervasive::unreached(),
        },
        None => {
            if parses(a) {
                Err(InvalidVersion { version: String::from_str(b) })
            } else {
                Err(InvalidVersion { version: String::from_str(a) })
            }
        },
    }
}

/// Of two version strings, the one that a comparison found newer: the second
/// where the first is `Less`, the first otherwise.
pub fn newer_of(a: String, b: String, rel: Relation) -> (newer: String)
    ensures
        newer@ == (if rel == Relation::Less {
            b@
        } else {
            a@
        }),
{
    match rel {
        Relation::Less => b,
        Relation::Equal => a,
        Relation::Greater => a,
    }
}

/// Picks the newer of two version strings and hands it back as it was given.
///
/// Both are compared without their letters `v`. On a tie the first wins.
/// Fails exactly when one of the two, so stripped, is no version, and then
/// names the first such string as it was given.
pub fn max(a: String, b: String) -> (outcome: Result<String, InvalidVersion>)
    ensures
        outcome is Ok <==> is_version(strip_v(a@)) && is_version(strip_v(b@)),
        outcome matches Ok(newer) ==> max_spec(a@, b@) == Some(newer@),
        outcome matches Ok(newer) ==> a@ == b@ ==> newer@ == a@,
        outcome matches Err(e) ==> max_spec(a@, b@) is None && e.version@ == (if is_version(
            strip_v(a@),
        ) {
            b@
        } else {
            a@
        }),
{
    let plain_a = normalize(a.as_str());
    let plain_b = normalize(b.as_str());
    match compare(plain_a.as_str(), plain_b.as_str()) {
        Ok(rel) => Ok(newer_of(a, b, rel)),
        Err(_) => {
            if parses(plain_a.as_str()) {
                Err(InvalidVersion { version: b })
            } else {
                Err(InvalidVersion { version: a })
            }
        },
    }
}

} // verus!
