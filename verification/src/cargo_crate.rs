//! The canonical dependency record and how raw identifiers are classified.
//! Registry lookups are I/O and belong to the surrounding application; it
//! hands the fetched registry record in as a `RegistryInfo` and the merging
//! into a `Crate` happens here.

use vstd::prelude::*;
use crate::text::{ends_with, spec_ends_with, spec_starts_with, starts_with};

verus! {

/// The local (pinned) and remote (registry) version texts of a dependency.
#[derive(Debug)]
pub struct CrateVersion {
    pub local: Option<String>,
    pub remote: Option<String>,
}

/// The mathematical image of a `CrateVersion`.
pub struct CrateVersionModel {
    pub local: Option<Seq<char>>,
    pub remote: Option<Seq<char>>,
}

/// View of an optional string as an optional character sequence.
pub open spec fn view_opt(o: Option<String>) -> Option<Seq<char>> {
    match o {
        Some(s) => Some(s@),
        None => None,
    }
}

impl View for CrateVersion {
    type V = CrateVersionModel;

    open spec fn view(&self) -> CrateVersionModel {
        CrateVersionModel { local: view_opt(self.local), remote: view_opt(self.remote) }
    }
}

impl DeepView for CrateVersion {
    type V = CrateVersionModel;

    open spec fn deep_view(&self) -> CrateVersionModel {
        self.view()
    }
}

/// One dependency under evaluation: identity and registry metadata.
/// Timestamps are seconds since the Unix epoch.
#[derive(Debug)]
pub struct Crate {
    pub name: String,
    pub source_url: Option<String>,
    pub description: Option<String>,
    pub documentation: Option<String>,
    pub homepage: Option<String>,
    pub version: Option<CrateVersion>,
    pub created_at: Option<i64>,
    pub updated_at: Option<i64>,
    pub downloads: u64,
}

/// The mathematical image of a `Crate`.
pub struct CrateModel {
    pub name: Seq<char>,
    pub source_url: Option<Seq<char>>,
    pub description: Option<Seq<char>>,
    pub documentation: Option<Seq<char>>,
    pub homepage: Option<Seq<char>>,
    pub version: Option<CrateVersionModel>,
    pub created_at: Option<i64>,
    pub updated_at: Option<i64>,
    pub downloads: u64,
}

impl View for Crate {
    type V = CrateModel;

    open spec fn view(&self) -> CrateModel {
        CrateModel {
            name: self.name@,
            source_url: view_opt(self.source_url),
            description: view_opt(self.description),
            documentation: view_opt(self.documentation),
            homepage: view_opt(self.homepage),
            version: match self.version {
                Some(v) => Some(v@),
                None => None,
            },
            created_at: self.created_at,
            updated_at: self.updated_at,
            downloads: self.downloads,
        }
    }
}

impl DeepView for Crate {
    type V = CrateModel;

    open spec fn deep_view(&self) -> CrateModel {
        self.view()
    }
}

/// What the package registry reports for one package, as plain values.
/// Timestamps are seconds since the Unix epoch.
#[derive(Debug)]
pub struct RegistryInfo {
    pub repository: Option<String>,
    pub description: Option<String>,
    pub documentation: Option<String>,
    pub homepage: Option<String>,
    pub max_version: String,
    pub downloads: u64,
    pub created_at: i64,
    pub updated_at: i64,
}

/// How a raw identifier is treated.
#[derive(Debug, Clone, Copy, PartialEq, Eq, Structural)]
pub enum IdentifierKind {
    /// A path to a local manifest file: resolve every dependency in it.
    Manifest,
    /// A direct source-host URL: no registry lookup.
    SourceUrl,
    /// A registry package name.
    PackageName,
}

/// Classification of a raw identifier, in order: a manifest path ends with
/// the manifest extension, a source URL starts with the scheme prefix, and
/// anything else is a package name.
pub open spec fn spec_classify(s: Seq<char>) -> IdentifierKind {
    if spec_ends_with(s, ".toml"@) {
        IdentifierKind::Manifest
    } else if spec_starts_with(s, "https://"@) {
        IdentifierKind::SourceUrl
    } else {
        IdentifierKind::PackageName
    }
}

/// Classifies one raw identifier.
pub fn classify_identifier(s: &str) -> (r: IdentifierKind)
    ensures
        r == spec_classify(s@),
{
    if ends_with(s, ".toml") {
        IdentifierKind::Manifest
    } else if starts_with(s, "https://") {
        IdentifierKind::SourceUrl
    } else {
        IdentifierKind::PackageName
    }
}

impl Crate {
    /// A dependency identified only by its source URL: every other field is
    /// absent.
    pub fn from_source(github_url: String) -> (r: Crate)
        ensures
            r@ == (CrateModel {
                name: Seq::<char>::empty(),
                source_url: Some(github_url@),
                description: None,
                documentation: None,
                homepage: None,
                version: None,
                created_at: None,
                updated_at: None,
                downloads: 0,
            }),
    {
        Crate {
            name: String::new(),
            source_url: Some(github_url),
            description: None,
            documentation: None,
            homepage: None,
            version: None,
            created_at: None,
            updated_at: None,
            downloads: 0,
        }
    }

    /// A dependency resolved through the registry: the registry record merged
    /// with the caller-supplied local version.
    pub fn from_name(name: String, local_version: Option<String>, info: RegistryInfo) -> (r: Crate)
        ensures
            r@ == (CrateModel {
                name: name@,
                source_url: view_opt(info.repository),
                description: view_opt(info.description),
                documentation: view_opt(info.documentation),
                homepage: view_opt(info.homepage),
                version: Some(
                    CrateVersionModel {
                        local: view_opt(local_version),
                        remote: Some(info.max_version@),
                    },
                ),
                created_at: Some(info.created_at),
                updated_at: Some(info.updated_at),
                downloads: info.downloads,
            }),
    {
        Crate {
            name,
            source_url: info.repository,
            description: info.description,
            documentation: info.documentation,
            homepage: info.homepage,
            version: Some(CrateVersion { local: local_version, remote: Some(info.max_version) }),
            created_at: Some(info.created_at),
            updated_at: Some(info.updated_at),
            downloads: info.downloads,
        }
    }
}

} // verus!
