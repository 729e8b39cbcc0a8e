//! Audit of deployed Helm chart releases against the versions that their
//! repositories offer.
//!
//! The crate holds the reconciliation engine: version strings are normalised
//! and compared, a catalog is reduced to its latest version, every release is
//! classified, and the results are folded into a report with a pass/fail
//! signal. Running the command-line tools and rendering the report is left to
//! the caller.

pub mod aggregate;
pub mod audit;
pub mod classify;
pub mod connectors;
pub mod evaluate;
pub mod permutation;
pub mod resolve;
pub mod types;
pub mod version;
pub mod version_order;
