//! The error taxonomy of the library.

use vstd::prelude::*;

verus! {

/// Everything that can go wrong while resolving a dependency or evaluating a
/// criterion. Resolution-stage errors abort a run; evaluation-stage errors
/// degrade a single result cell.
#[derive(Debug, Clone, Copy, PartialEq, Eq, Structural)]
pub enum WmtError {
    /// A manifest could not be read or parsed.
    InvalidIdentifier,
    /// The package registry could not be reached or knows no such package.
    RegistryUnavailable,
    /// A source URL lacks the host marker or yields fewer than two non-empty
    /// path segments after it.
    InvalidRepositoryUrl,
    /// A source-host fetch failed.
    RepositoryUnavailable,
    /// A version string does not split into three dot-separated numeric
    /// components.
    MalformedVersion,
    /// The documentation page shows no parseable coverage percentage.
    CoverageUnparseable,
    /// A criterion needs source-host data but the dependency has no source
    /// URL.
    MissingSourceUrl,
}

pub open spec fn spec_error_message(e: WmtError) -> Seq<char> {
    match e {
        WmtError::InvalidIdentifier => "The manifest could not be read or parsed"@,
        WmtError::RegistryUnavailable => "Could not retrieve the crate information. The crates.io API might be down."@,
        WmtError::InvalidRepositoryUrl => "The source URL does not point into the source host"@,
        WmtError::RepositoryUnavailable => "The source host could not be reached"@,
        WmtError::MalformedVersion => "The version is not a major.minor.patch version"@,
        WmtError::CoverageUnparseable => "There is no doc coverage information"@,
        WmtError::MissingSourceUrl => "crates.io has no source url for this crate"@,
    }
}

impl WmtError {
    /// A human-readable description of the error.
    pub fn message(&self) -> (r: String)
        ensures
            r@ == spec_error_message(*self),
    {
        match *self {
            WmtError::InvalidIdentifier => String::from_str(
                "The manifest could not be read or parsed",
            ),
            WmtError::RegistryUnavailable => String::from_str(
                "Could not retrieve the crate information. The crates.io API might be down.",
            ),
            WmtError::InvalidRepositoryUrl => String::from_str(
                "The source URL does not point into the source host",
            ),
            WmtError::RepositoryUnavailable => String::from_str(
                "The source host could not be reached",
            ),
            WmtError::MalformedVersion => String::from_str(
                "The version is not a major.minor.patch version",
            ),
            WmtError::CoverageUnparseable => String::from_str(
                "There is no doc coverage information",
            ),
            WmtError::MissingSourceUrl => String::from_str(
                "crates.io has no source url for this crate",
            ),
        }
    }
}

} // verus!
