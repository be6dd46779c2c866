use wmt::cargo_crate::{Crate, CrateVersion};
use wmt::check::{CheckResult, ContentEntry, CrateCheck, DocData, ReleaseInfo, RepoData, Status};

const NOW: i64 = 1_700_000_000;
const DAY: i64 = 86_400;

fn checker() -> CrateCheck {
    CrateCheck::new(Vec::new(), false)
}

fn crate_with_version(version: &str, downloads: u64) -> Crate {
    Crate {
        name: String::from("example"),
        source_url: Some(String::from("https://github.com/owner/example")),
        description: None,
        documentation: None,
        homepage: None,
        version: Some(CrateVersion {
            local: Some(String::from("N/A")),
            remote: Some(String::from(version)),
        }),
        created_at: None,
        updated_at: None,
        downloads,
    }
}

fn empty_data() -> RepoData {
    RepoData {
        now: NOW,
        repo_content: Err(String::from("not fetched")),
        open_bug_comments: Err(String::from("not fetched")),
        workflow_failed_runs: Err(String::from("not fetched")),
        changelog_file_exists: Err(String::from("not fetched")),
        latest_release: Err(String::from("not fetched")),
        commits_this_year: Err(String::from("not fetched")),
        latest_commit: Err(String::from("not fetched")),
        doc: Err(String::from("not fetched")),
    }
}

// --- production readiness ---

#[test]
fn production_readiness_major_release_passes() {
    let c = checker();
    let r = c.check_production_readiness(&crate_with_version("2.0.0", 0));
    assert_eq!(r.status, Status::Green);
    assert_eq!(r.explanation, "The project has at least one major release");
}

#[test]
fn production_readiness_minor_release_with_downloads_is_partial() {
    let c = checker();
    let r = c.check_production_readiness(&crate_with_version("0.3.0", 500));
    assert_eq!(r.status, Status::Yellow);
    assert_eq!(
        r.explanation,
        "The project has at least two minor releases and at least 500 downloads"
    );
}

#[test]
fn production_readiness_minor_release_without_downloads_fails() {
    let c = checker();
    let r = c.check_production_readiness(&crate_with_version("0.3.0", 499));
    assert_eq!(r.status, Status::Red);
    assert_eq!(r.explanation, "The project has no major or minor release");
}

#[test]
fn production_readiness_patch_only_fails_regardless_of_downloads() {
    let c = checker();
    let r = c.check_production_readiness(&crate_with_version("0.0.5", 1_000_000));
    assert_eq!(r.status, Status::Red);
}

#[test]
fn production_readiness_malformed_version_is_error_row() {
    let c = checker();
    let r = c.check_production_readiness(&crate_with_version("not-a-version", 0));
    assert_eq!(r.status, Status::Red);
    assert_eq!(r.explanation, "The version is not a major.minor.patch version");
}

// --- documentation ---

fn hosted_doc_crate() -> Crate {
    let mut c = crate_with_version("1.0.0", 0);
    c.documentation = Some(String::from("https://docs.rs/example"));
    c
}

fn data_with_doc(page_exists: bool, html: &str) -> RepoData {
    let mut d = empty_data();
    d.doc = Ok(DocData {
        page_exists,
        page_html: String::from(html),
    });
    d
}

#[test]
fn documentation_coverage_seventy_five_passes() {
    let c = checker();
    let html = "<html><body><a class=\"pure-menu-link\">75%</a></body></html>";
    let r = c.check_documentation(&hosted_doc_crate(), &data_with_doc(true, html));
    assert_eq!(r.status, Status::Green);
    assert!(r.explanation.contains("75"));
    assert_eq!(r.explanation, "75% of the crate is documented");
}

#[test]
fn documentation_coverage_thirty_is_partial() {
    let c = checker();
    let html = "<html><body><a class=\"pure-menu-link\">30%</a></body></html>";
    let r = c.check_documentation(&hosted_doc_crate(), &data_with_doc(true, html));
    assert_eq!(r.status, Status::Yellow);
    assert!(r.explanation.contains("30"));
}

#[test]
fn documentation_coverage_five_fails() {
    let c = checker();
    let html = "<html><body><a class=\"pure-menu-link\">5%</a></body></html>";
    let r = c.check_documentation(&hosted_doc_crate(), &data_with_doc(true, html));
    assert_eq!(r.status, Status::Red);
    assert!(r.explanation.contains("5"));
}

#[test]
fn documentation_unparseable_coverage_is_partial() {
    let c = checker();
    let html = "<html><body><a class=\"pure-menu-link\">modules</a></body></html>";
    let r = c.check_documentation(&hosted_doc_crate(), &data_with_doc(true, html));
    assert_eq!(r.status, Status::Yellow);
    assert_eq!(
        r.explanation,
        "The crate is documented on doc.rs but there's no doc coverage information"
    );
}

#[test]
fn documentation_failing_build_fails() {
    let c = checker();
    let html = "<html><body><div class=\"warning\">build failed</div></body></html>";
    let r = c.check_documentation(&hosted_doc_crate(), &data_with_doc(true, html));
    assert_eq!(r.status, Status::Red);
    assert_eq!(r.explanation, "The crate has a failing documentation build");
}

#[test]
fn documentation_readme_on_source_host_passes() {
    let c = checker();
    let mut dep = crate_with_version("1.0.0", 0);
    dep.documentation = Some(String::from("https://github.com/owner/example"));
    let r = c.check_documentation(&dep, &data_with_doc(true, ""));
    assert_eq!(r.status, Status::Green);
    assert_eq!(r.explanation, "README exists. Can't guarantee the coverage.");
}

#[test]
fn documentation_missing_page_fails() {
    let c = checker();
    let r = c.check_documentation(&hosted_doc_crate(), &data_with_doc(false, ""));
    assert_eq!(r.status, Status::Red);
    assert_eq!(r.explanation, "The crate has no README or doc.rs page");
}

#[test]
fn documentation_cleans_whitespace_around_percentage() {
    let c = checker();
    // The navigation text carries the six-space separator and surrounding
    // whitespace around the figure.
    let html = "<html><body><a class=\"pure-menu-link\">\n       62%  </a></body></html>";
    let r = c.check_documentation(&hosted_doc_crate(), &data_with_doc(true, html));
    assert_eq!(r.status, Status::Green);
    assert_eq!(r.explanation, "62% of the crate is documented");
}

// --- changelog ---

#[test]
fn changelog_file_takes_precedence() {
    let c = checker();
    let mut d = empty_data();
    d.changelog_file_exists = Ok(true);
    d.latest_release = Ok(Some(ReleaseInfo {
        body: Some(String::from("notes")),
        created_at: NOW - DAY,
    }));
    let r = c.check_changelog(&d);
    assert_eq!(r.status, Status::Green);
    assert_eq!(r.explanation, "The crate release has a CHANGELOG.md note");
}

#[test]
fn changelog_release_notes_pass() {
    let c = checker();
    let mut d = empty_data();
    d.changelog_file_exists = Ok(false);
    d.latest_release = Ok(Some(ReleaseInfo {
        body: Some(String::from("what changed")),
        created_at: NOW - DAY,
    }));
    let r = c.check_changelog(&d);
    assert_eq!(r.status, Status::Green);
    assert_eq!(r.explanation, "The crate has a release changelog");
}

#[test]
fn changelog_empty_notes_fail() {
    let c = checker();
    let mut d = empty_data();
    d.changelog_file_exists = Ok(false);
    d.latest_release = Ok(Some(ReleaseInfo {
        body: Some(String::new()),
        created_at: NOW - DAY,
    }));
    let r = c.check_changelog(&d);
    assert_eq!(r.status, Status::Red);
    assert_eq!(r.explanation, "The crate has no release changelog or CHANGELOG.md");
}

#[test]
fn changelog_no_release_fails() {
    let c = checker();
    let mut d = empty_data();
    d.changelog_file_exists = Ok(false);
    d.latest_release = Ok(None);
    let r = c.check_changelog(&d);
    assert_eq!(r.status, Status::Red);
}

// --- tests present ---

fn entry(path: &str, is_dir: bool) -> ContentEntry {
    ContentEntry {
        path: String::from(path),
        is_dir,
    }
}

#[test]
fn tests_directory_found_passes() {
    let c = checker();
    let mut d = empty_data();
    d.repo_content = Ok(vec![entry("src", true), entry("tests", true)]);
    let r = c.check_tests(&d);
    assert_eq!(r.status, Status::Green);
    assert_eq!(r.explanation, "Test files found. Can't guarantee coverage");
}

#[test]
fn tests_directory_missing_fails() {
    let c = checker();
    let mut d = empty_data();
    d.repo_content = Ok(vec![entry("src", true), entry("tests.md", false)]);
    let r = c.check_tests(&d);
    assert_eq!(r.status, Status::Red);
    assert_eq!(r.explanation, "No test files found");
}

#[test]
fn latest_language_check_appends_caveat() {
    let c = checker();
    let mut d = empty_data();
    d.repo_content = Ok(vec![entry("tests", true)]);
    let r = c.check_runs_against_latest_language(&d);
    assert_eq!(r.status, Status::Green);
    assert_eq!(
        r.explanation,
        "Test files found. Can't guarantee coverage or if they run with latest version"
    );
}

#[test]
fn latest_language_check_keeps_failure() {
    let c = checker();
    let mut d = empty_data();
    d.repo_content = Ok(vec![]);
    let r = c.check_runs_against_latest_language(&d);
    assert_eq!(r.status, Status::Red);
    assert_eq!(r.explanation, "No test files found");
}

#[test]
fn integration_version_check_is_unsupported() {
    let c = checker();
    let r = c.no_support_result();
    assert_eq!(r.status, Status::Grey);
    assert_eq!(r.explanation, "This is currently not supported");
}

// --- bug response ---

#[test]
fn bug_response_no_open_bugs_passes() {
    let c = checker();
    let mut d = empty_data();
    d.open_bug_comments = Ok(vec![]);
    let r = c.check_bug_response(&d);
    assert_eq!(r.status, Status::Green);
    assert_eq!(r.explanation, "There are no open bugs");
}

#[test]
fn bug_response_unanswered_bug_fails() {
    let c = checker();
    let mut d = empty_data();
    d.open_bug_comments = Ok(vec![0]);
    let r = c.check_bug_response(&d);
    assert_eq!(r.status, Status::Red);
    assert_eq!(
        r.explanation,
        "There are 1 open bugs with no response from the maintainer(s)"
    );
}

#[test]
fn bug_response_answered_bug_passes() {
    let c = checker();
    let mut d = empty_data();
    d.open_bug_comments = Ok(vec![3]);
    let r = c.check_bug_response(&d);
    assert_eq!(r.status, Status::Green);
    assert_eq!(r.explanation, "The maintainer(s) have responded to all open bugs");
}

#[test]
fn bug_response_counts_every_unanswered_bug() {
    let c = checker();
    let mut d = empty_data();
    d.open_bug_comments = Ok(vec![0, 5, 1, 2]);
    let r = c.check_bug_response(&d);
    assert_eq!(r.status, Status::Red);
    assert_eq!(
        r.explanation,
        "There are 2 open bugs with no response from the maintainer(s)"
    );
}

// --- continuous integration ---

#[test]
fn ci_configuration_with_workflows_passes() {
    let c = checker();
    let mut d = empty_data();
    d.workflow_failed_runs = Ok(vec![0, 0]);
    let r = c.check_continuous_integration(&d);
    assert_eq!(r.status, Status::Green);
    assert_eq!(r.explanation, "The crate has 2 Github workflow(s)");
}

#[test]
fn ci_configuration_without_workflows_fails() {
    let c = checker();
    let mut d = empty_data();
    d.workflow_failed_runs = Ok(vec![]);
    let r = c.check_continuous_integration(&d);
    assert_eq!(r.status, Status::Red);
    assert_eq!(r.explanation, "The crate has no Github workflow");
}

#[test]
fn ci_status_names_failing_workflows_but_stays_green() {
    let c = checker();
    let mut d = empty_data();
    d.workflow_failed_runs = Ok(vec![0, 2, 1]);
    let r = c.check_ci_status(&d);
    // The failing count is informational only: the status never downgrades.
    assert_eq!(r.status, Status::Green);
    assert_eq!(r.explanation, "2 of the workflows failed");
}

#[test]
fn ci_status_no_failing_workflow() {
    let c = checker();
    let mut d = empty_data();
    d.workflow_failed_runs = Ok(vec![0, 0]);
    let r = c.check_ci_status(&d);
    assert_eq!(r.status, Status::Green);
    assert_eq!(r.explanation, "No failing workflow found");
}

#[test]
fn ci_status_without_workflows_fails() {
    let c = checker();
    let mut d = empty_data();
    d.workflow_failed_runs = Ok(vec![]);
    let r = c.check_ci_status(&d);
    assert_eq!(r.status, Status::Red);
}

#[test]
fn failing_workflow_count() {
    let c = checker();
    assert_eq!(c.get_failing_workflows(&vec![]), 0);
    assert_eq!(c.get_failing_workflows(&vec![0, 0]), 0);
    assert_eq!(c.get_failing_workflows(&vec![3, 0, 1]), 2);
}

// --- activity ---

#[test]
fn usage_with_commits_passes() {
    let c = checker();
    let mut d = empty_data();
    d.commits_this_year = Ok(true);
    let r = c.check_usage(&d);
    assert_eq!(r.status, Status::Green);
    assert_eq!(r.explanation, "There have been commits this year");
}

#[test]
fn usage_without_commits_fails() {
    let c = checker();
    let mut d = empty_data();
    d.commits_this_year = Ok(false);
    let r = c.check_usage(&d);
    assert_eq!(r.status, Status::Red);
    assert_eq!(r.explanation, "There have been no commits this year");
}

#[test]
fn latest_commit_recent_is_red() {
    // The inherited polarity: a commit under a year old fails the check.
    let c = checker();
    let mut d = empty_data();
    d.latest_commit = Ok(NOW - 10 * DAY);
    let r = c.check_latest_commits(&d);
    assert_eq!(r.status, Status::Red);
    assert_eq!(r.explanation, "The last commit was 10 day(s) ago");
}

#[test]
fn latest_commit_old_is_green() {
    let c = checker();
    let mut d = empty_data();
    d.latest_commit = Ok(NOW - 400 * DAY);
    let r = c.check_latest_commits(&d);
    assert_eq!(r.status, Status::Green);
    assert_eq!(r.explanation, "The last commit was 400 day(s) ago");
}

#[test]
fn latest_commit_in_the_future_counts_negative_days() {
    let c = checker();
    let mut d = empty_data();
    d.latest_commit = Ok(NOW + 10 * DAY);
    let r = c.check_latest_commits(&d);
    assert_eq!(r.status, Status::Red);
    assert_eq!(r.explanation, "The last commit was -10 day(s) ago");
}

#[test]
fn latest_release_missing_fails() {
    let c = checker();
    let mut d = empty_data();
    d.latest_release = Ok(None);
    let r = c.check_latest_release(&d);
    assert_eq!(r.status, Status::Red);
    assert_eq!(r.explanation, "There has no been release.");
}

#[test]
fn latest_release_over_a_year_is_partial() {
    let c = checker();
    let mut d = empty_data();
    d.latest_release = Ok(Some(ReleaseInfo {
        body: None,
        created_at: NOW - 400 * DAY,
    }));
    let r = c.check_latest_release(&d);
    assert_eq!(r.status, Status::Yellow);
    assert_eq!(r.explanation, "The last release was over a year ago");
}

#[test]
fn latest_release_recent_passes_with_day_count() {
    let c = checker();
    let mut d = empty_data();
    d.latest_release = Ok(Some(ReleaseInfo {
        body: None,
        created_at: NOW - 10 * DAY,
    }));
    let r = c.check_latest_release(&d);
    assert_eq!(r.status, Status::Green);
    assert_eq!(r.explanation, "The last release was 10 day(s) ago");
}

// --- error rows ---

#[test]
fn fetch_error_becomes_failing_row_with_error_text() {
    let c = checker();
    let mut d = empty_data();
    d.open_bug_comments = Err(String::from("the source host could not be reached"));
    let r = c.check_bug_response(&d);
    assert_eq!(r.status, Status::Red);
    assert_eq!(r.explanation, "the source host could not be reached");
}

#[test]
fn from_error_message_is_red() {
    let r = CheckResult::from_error_message(String::from("boom"));
    assert_eq!(r.status, Status::Red);
    assert_eq!(r.explanation, "boom");
    assert!(r.question.is_none());
}

#[test]
fn status_display_values() {
    assert_eq!(Status::Green.value(), "GREEN");
    assert_eq!(Status::Yellow.value(), "Yellow");
    assert_eq!(Status::Red.value(), "RED");
    assert_eq!(Status::Grey.value(), "GREY");
}

#[test]
fn check_result_to_vec_columns() {
    let r = CheckResult {
        question: Some(String::from("7")),
        status: Status::Green,
        explanation: String::from("There are no open bugs"),
    };
    let cols = r.to_vec();
    assert_eq!(cols, vec!["7", "GREEN", "There are no open bugs"]);
}
