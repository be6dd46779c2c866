use wmt::cargo_crate::{classify_identifier, Crate, CrateVersion, IdentifierKind, RegistryInfo};
use wmt::check::{CrateCheck, DocData, ReleaseInfo, RepoData, Status};
use wmt::constants::missing_field_placeholder;
use wmt::doc::{DocService, DocSource};
use wmt::errors::WmtError;
use wmt::github::GithubService;
use wmt::questions::{CheckNames, Questions};
use wmt::result::CommandResult;

const NOW: i64 = 1_700_000_000;
const DAY: i64 = 86_400;

fn empty_data() -> RepoData {
    RepoData {
        now: NOW,
        repo_content: Err(String::from("not fetched")),
        open_bug_comments: Err(String::from("not fetched")),
        workflow_failed_runs: Err(String::from("not fetched")),
        changelog_file_exists: Err(String::from("not fetched")),
        latest_release: Err(String::from("not fetched")),
        commits_this_year: Err(String::from("not fetched")),
        latest_commit: Err(String::from("not fetched")),
        doc: Err(String::from("not fetched")),
    }
}

fn serde_registry_info() -> RegistryInfo {
    RegistryInfo {
        repository: Some(String::from("https://github.com/serde-rs/serde")),
        description: Some(String::from("A serialization framework")),
        documentation: Some(String::from("https://docs.rs/serde")),
        homepage: None,
        max_version: String::from("1.0.130"),
        downloads: 50_000_000,
        created_at: NOW - 3000 * DAY,
        updated_at: NOW - DAY,
    }
}

fn healthy_data() -> RepoData {
    RepoData {
        now: NOW,
        repo_content: Ok(vec![wmt::check::ContentEntry {
            path: String::from("tests"),
            is_dir: true,
        }]),
        open_bug_comments: Ok(vec![]),
        workflow_failed_runs: Ok(vec![0, 0, 0]),
        changelog_file_exists: Ok(true),
        latest_release: Ok(Some(ReleaseInfo {
            body: Some(String::from("notes")),
            created_at: NOW - 10 * DAY,
        })),
        commits_this_year: Ok(true),
        latest_commit: Ok(NOW - DAY),
        doc: Ok(DocData {
            page_exists: true,
            page_html: String::from(
                "<html><body><a class=\"pure-menu-link\">96%</a></body></html>",
            ),
        }),
    }
}

#[test]
fn matrix_skips_dependency_without_source_url() {
    // One dependency with a source URL and one without: the matrix holds rows
    // only for the one with a source URL, one row per catalog question.
    let with_source = Crate::from_name(
        String::from("serde"),
        Some(missing_field_placeholder()),
        serde_registry_info(),
    );
    let without_source = Crate {
        name: String::from("mystery"),
        source_url: None,
        description: None,
        documentation: None,
        homepage: None,
        version: Some(CrateVersion {
            local: None,
            remote: Some(String::from("2.0.0")),
        }),
        created_at: None,
        updated_at: None,
        downloads: 10,
    };
    let checker = CrateCheck::new(vec![with_source, without_source], false);
    let data = vec![healthy_data(), empty_data()];
    let results = checker.run_checks(None, &data);
    assert_eq!(results.len(), 12);
    for (i, row) in results.iter().enumerate() {
        assert_eq!(row.len(), 1);
        assert_eq!(row[0].question.as_deref(), Some((i + 1).to_string().as_str()));
    }
}

#[test]
fn end_to_end_healthy_dependency() {
    let dep = Crate::from_name(
        String::from("serde"),
        Some(missing_field_placeholder()),
        serde_registry_info(),
    );
    let checker = CrateCheck::new(vec![dep], false);
    let data = vec![healthy_data()];
    let results = checker.run_checks(None, &data);
    assert_eq!(results.len(), 12);

    // Criterion 1: production readiness of version 1.0.130.
    assert_eq!(results[0][0].status, Status::Green);
    // Criterion 8: a populated workflow list.
    assert_eq!(results[7][0].status, Status::Green);
    assert_eq!(results[7][0].explanation, "The crate has 3 Github workflow(s)");
    // Criterion 9: zero failing runs.
    assert_eq!(results[8][0].status, Status::Green);
    assert_eq!(results[8][0].explanation, "No failing workflow found");
    // Criterion 10: a commit within the year.
    assert_eq!(results[9][0].status, Status::Green);
    // Criterion 12: a release within ten days, day count stated.
    assert_eq!(results[11][0].status, Status::Green);
    assert_eq!(results[11][0].explanation, "The last release was 10 day(s) ago");
}

#[test]
fn single_question_selection() {
    let dep = Crate::from_name(String::from("serde"), None, serde_registry_info());
    let checker = CrateCheck::new(vec![dep], false);
    let data = vec![healthy_data()];
    let results = checker.run_checks(Some(String::from("7")), &data);
    assert_eq!(results.len(), 1);
    assert_eq!(results[0][0].question.as_deref(), Some("7"));
    assert_eq!(results[0][0].explanation, "There are no open bugs");
}

#[test]
fn unknown_question_selects_nothing() {
    let dep = Crate::from_name(String::from("serde"), None, serde_registry_info());
    let checker = CrateCheck::new(vec![dep], false);
    let data = vec![healthy_data()];
    let results = checker.run_checks(Some(String::from("99")), &data);
    assert_eq!(results.len(), 0);
}

#[test]
fn evaluation_is_idempotent() {
    // The same (dependency, question) pair against unchanged observations
    // yields identical status and explanation.
    let dep = Crate::from_name(String::from("serde"), None, serde_registry_info());
    let checker = CrateCheck::new(vec![dep], false);
    let data = vec![healthy_data()];
    let first = checker.run_checks(None, &data);
    let second = checker.run_checks(None, &data);
    assert_eq!(first.len(), second.len());
    for (a, b) in first.iter().zip(second.iter()) {
        assert_eq!(a[0].status, b[0].status);
        assert_eq!(a[0].explanation, b[0].explanation);
        assert_eq!(a[0].question, b[0].question);
    }
}

// --- catalog ---

#[test]
fn question_numbers_are_one_through_twelve() {
    let numbers = Questions::question_numbers();
    let expected: Vec<String> = (1..13).map(|x| x.to_string()).collect();
    assert_eq!(numbers, expected);
}

#[test]
fn catalog_has_twelve_ordered_entries() {
    let qs = Questions::new(false);
    let catalog = qs.list().questions;
    assert_eq!(catalog.len(), 12);
    for (i, q) in catalog.iter().enumerate() {
        assert_eq!(q.number, (i + 1).to_string());
    }
    assert_eq!(catalog[0].name, CheckNames::ProductionReadiness);
    assert_eq!(catalog[11].name, CheckNames::LatestRelease);
}

#[test]
fn describe_selects_by_number() {
    let qs = Questions::new(false);
    let picked = qs.describe(String::from("3"));
    assert_eq!(picked.len(), 1);
    assert_eq!(picked[0].number, "3");
    assert_eq!(picked[0].name, CheckNames::Changelog);
    let cols = picked[0].to_vec();
    assert_eq!(cols[0], "3");
}

#[test]
fn describe_unknown_number_is_empty() {
    let qs = Questions::new(false);
    assert!(qs.describe(String::from("nope")).is_empty());
}

// --- identifiers and URLs ---

#[test]
fn classify_identifiers() {
    assert_eq!(classify_identifier("Cargo.toml"), IdentifierKind::Manifest);
    assert_eq!(
        classify_identifier("https://github.com/owner/repo"),
        IdentifierKind::SourceUrl
    );
    assert_eq!(classify_identifier("serde"), IdentifierKind::PackageName);
}

#[test]
fn github_service_parses_owner_and_repo() {
    let g = GithubService::new(String::from("https://github.com/rust-lang/rust")).unwrap();
    assert_eq!(g.owner, "rust-lang");
    assert_eq!(g.repo, "rust");
    assert_eq!(g.url, "https://github.com/rust-lang/rust");
}

#[test]
fn github_service_tolerates_extra_path_segments() {
    let g = GithubService::new(String::from("https://github.com/owner/repo/tree/main")).unwrap();
    assert_eq!(g.owner, "owner");
    assert_eq!(g.repo, "repo");
}

#[test]
fn github_service_rejects_foreign_hosts() {
    let e = GithubService::new(String::from("https://example.com/owner/repo")).unwrap_err();
    assert!(matches!(e, WmtError::InvalidRepositoryUrl));
}

#[test]
fn github_service_rejects_bare_host() {
    assert!(GithubService::new(String::from("https://github.com")).is_err());
    assert!(GithubService::new(String::from("https://github.com/only-owner")).is_err());
}

#[test]
fn doc_service_classifies_sources() {
    let d = DocService::new("example", "https://github.com/owner/example");
    assert_eq!(d.doc_source, DocSource::GithubReadMe);
    assert_eq!(d.doc_url, "https://github.com/owner/example");
    assert_eq!(d.doc_source.label(), "Github");

    let d = DocService::new("example", "https://example-docs.io");
    assert_eq!(d.doc_source, DocSource::RustDoc);
    assert_eq!(d.doc_url, "https://docs.rs/example");
    assert_eq!(d.doc_source.label(), "Rust Doc");
}

#[test]
fn crate_from_source_has_only_url() {
    let c = Crate::from_source(String::from("https://github.com/owner/repo"));
    assert_eq!(c.name, "");
    assert_eq!(c.source_url.as_deref(), Some("https://github.com/owner/repo"));
    assert!(c.version.is_none());
    assert_eq!(c.downloads, 0);
}

#[test]
fn crate_from_name_merges_registry_record() {
    let c = Crate::from_name(
        String::from("serde"),
        Some(String::from("1.0.0")),
        serde_registry_info(),
    );
    assert_eq!(c.name, "serde");
    assert_eq!(c.source_url.as_deref(), Some("https://github.com/serde-rs/serde"));
    let v = c.version.unwrap();
    assert_eq!(v.local.as_deref(), Some("1.0.0"));
    assert_eq!(v.remote.as_deref(), Some("1.0.130"));
    assert_eq!(c.downloads, 50_000_000);
}

// --- errors and small pieces ---

#[test]
fn error_messages_describe_each_variant() {
    assert!(WmtError::InvalidIdentifier.message().contains("manifest"));
    assert!(WmtError::RegistryUnavailable.message().contains("crates.io"));
    assert!(WmtError::InvalidRepositoryUrl.message().contains("source URL"));
    assert!(WmtError::RepositoryUnavailable.message().contains("source host"));
    assert!(WmtError::MalformedVersion.message().contains("version"));
    assert!(WmtError::CoverageUnparseable.message().contains("coverage"));
    assert!(WmtError::MissingSourceUrl.message().contains("source url"));
}

#[test]
fn command_result_holds_mode_and_headers() {
    let headers = vec![
        String::from("Question"),
        String::from("Status"),
        String::from("Explanation"),
    ];
    let cr = CommandResult::new(true, headers.clone());
    assert!(cr.as_json);
    assert_eq!(cr.headers, headers);
}

#[test]
fn placeholder_is_na() {
    assert_eq!(missing_field_placeholder(), "N/A");
}
