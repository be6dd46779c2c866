//! A library that evaluates the "health" of a software dependency against a
//! fixed catalog of maintenance criteria (release cadence, documentation,
//! changelog discipline, tests, issue responsiveness, CI, recent activity).
//!
//! The decision logic lives here, fully verified: parsing version strings and
//! repository URLs, classifying documentation sources, and reducing fetched
//! metadata to an outcome with an explanation. Fetching that metadata from the
//! package registry, the source host and the documentation host is I/O and is
//! done by the surrounding application, which hands the results in as plain
//! values.

pub mod cargo_crate;
pub mod check;
pub mod constants;
pub mod doc;
pub mod errors;
pub mod github;
pub mod questions;
pub mod result;
pub mod text;
pub mod version;
