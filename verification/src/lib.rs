//! Assembly of the `vyper` compiler's structured report into a project model.
//!
//! The upstream compiler reports, per source file and contract name, a raw
//! per-contract report. This library validates such a report and flattens it
//! into a [`project::Project`]: a version-tagged mapping from a colon-joined
//! full identifier `<file>:<name>` to a normalized contract value.

pub mod contract;
pub mod identifier;
pub mod json;
pub mod laws;
pub mod output;
pub mod project;
pub mod version;
