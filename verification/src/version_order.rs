//! How the `version-compare` crate reads and orders version strings.
//!
//! Nothing in this file is proved: each function below calls into that crate
//! and states what the crate is taken to do. Everything else in the library is
//! verified against these statements.

use vstd::prelude::*;

verus! {

/// The comparison operators of `version_compare::Cmp`, one for one.
#[derive(Clone, Copy, Debug, PartialEq, Eq, Structural)]
pub enum Operator {
    Eq,
    Ne,
    Lt,
    Le,
    Ge,
    Gt,
}

impl Operator {
    /// The operator that holds when the two sides change places: `Lt` and `Gt`
    /// swap, `Le` and `Ge` swap, the others stay.
    pub open spec fn flipped(self) -> Operator {
        match self {
            Operator::Lt => Operator::Gt,
            Operator::Le => Operator::Ge,
            Operator::Ge => Operator::Le,
            Operator::Gt => Operator::Lt,
            Operator::Eq => Operator::Eq,
            Operator::Ne => Operator::Ne,
        }
    }
}

/// An answer with its operator flipped; an error stays an error.
pub open spec fn flipped_answer(answer: Option<Operator>) -> Option<Operator> {
    match answer {
        Some(op) => Some(op.flipped()),
        None => None,
    }
}

/// Whether `version_compare::Version::from` accepts the text as a version.
pub uninterp spec fn version_parses(text: Seq<char>) -> bool;

/// What `version_compare::compare` answers for two texts; `None` stands for
/// its error.
pub uninterp spec fn version_relation(a: Seq<char>, b: Seq<char>) -> Option<Operator>;

/// Calls `version_compare::Version::from` and tells whether it produced a
/// version. The answer depends on the text alone.
#[verifier::external_body]
pub(crate) fn parses(text: &str) -> (accepted: bool)
    ensures
        accepted == version_parses(text@),
{
    version_compare::Version::from(text).is_some()
}

/// Calls `version_compare::compare`.
///
/// The contract states what that function's documentation and source show:
///
/// - the answer depends on the two texts alone;
/// - both texts are parsed with `Version::from`, and the call fails exactly
///   when one of them is refused;
/// - on success the answer is `Eq`, `Lt` or `Gt`, never another operator;
/// - exchanging the arguments flips the answer: the parts of the two versions
///   are compared pair by pair by a rule that is symmetric, and what is left
///   over of the longer version is judged by the same code whichever side it
///   stands on, with the answer flipped for the right-hand side.
#[verifier::external_body]
pub(crate) fn relate(a: &str, b: &str) -> (answer: Option<Operator>)
    ensures
        answer == version_relation(a@, b@),
        answer is Some <==> (version_parses(a@) && version_parses(b@)),
        answer is None || answer == Some(Operator::Eq) || answer == Some(Operator::Lt) || answer
            == Some(Operator::Gt),
        flipped_answer(answer) == version_relation(b@, a@),
{
    match version_compare::compare(a, b) {
        Ok(version_compare::Cmp::Eq) => Some(Operator::Eq),
        Ok(version_compare::Cmp::Ne) => Some(Operator::Ne),
        Ok(version_compare::Cmp::Lt) => Some(Operator::Lt),
        Ok(version_compare::Cmp::Le) => Some(Operator::Le),
        Ok(version_compare::Cmp::Ge) => Some(Operator::Ge),
        Ok(version_compare::Cmp::Gt) => Some(Operator::Gt),
        Err(()) => None,
    }
}

} // verus!
