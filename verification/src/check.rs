//! The criterion evaluation engine: for one dependency and one catalog
//! question, reduce the fetched metadata to an outcome with an explanation,
//! and assemble the result matrix over all dependencies and selected
//! questions.
//!
//! Every fetch is done by the surrounding application and handed in as a
//! `RepoData`: each observation either a plain value or the text of the error
//! that the fetch produced. An errored observation degrades exactly the
//! result cells that need it.

use vstd::prelude::*;
use crate::cargo_crate::{view_opt, Crate, CrateModel};
use crate::constants::MAX_DOWNLOAD_FOR_MINOR_VERSION;
use crate::doc::{class_texts_of, spec_coverage_score, spec_doc_source, DocService, DocSource};
use crate::errors::{spec_error_message, WmtError};
use crate::questions::{spec_catalog, CheckNames, Question, QuestionModel, Questions};
use crate::text::{
    contains_sub, lemma_deep_view_push, spec_contains, spec_i64_digits, spec_u64_digits, str_eq,
    i64_to_string, u64_to_string,
};
use crate::version::{spec_parse_version, Version};

verus! {

// ---------------------------------------------------------------------------
// Outcomes
// ---------------------------------------------------------------------------

/// The outcome of one check.
/// Green: completely passes. Yellow: passes with caveats. Red: does not
/// pass. Grey: cannot currently be evaluated.
#[derive(Debug, Clone, Copy, PartialEq, Eq, Structural)]
pub enum Status {
    Green,
    Yellow,
    Red,
    Grey,
}

pub open spec fn spec_status_value(s: Status) -> Seq<char> {
    match s {
        Status::Green => "GREEN"@,
        Status::Yellow => "Yellow"@,
        Status::Red => "RED"@,
        Status::Grey => "GREY"@,
    }
}

impl Status {
    /// The display text of the outcome.
    pub fn value(&self) -> (r: String)
        ensures
            r@ == spec_status_value(*self),
    {
        match *self {
            Status::Green => String::from_str("GREEN"),
            Status::Yellow => String::from_str("Yellow"),
            Status::Red => String::from_str("RED"),
            Status::Grey => String::from_str("GREY"),
        }
    }
}

/// The result of one check: the question number (attached by the dispatcher),
/// the outcome, and a human-readable explanation.
#[derive(Debug)]
pub struct CheckResult {
    pub question: Option<String>,
    pub status: Status,
    pub explanation: String,
}

/// The mathematical image of a `CheckResult`.
pub struct ResultModel {
    pub question: Option<Seq<char>>,
    pub status: Status,
    pub explanation: Seq<char>,
}

impl View for CheckResult {
    type V = ResultModel;

    open spec fn view(&self) -> ResultModel {
        ResultModel {
            question: match self.question {
                Some(q) => Some(q@),
                None => None,
            },
            status: self.status,
            explanation: self.explanation@,
        }
    }
}

impl DeepView for CheckResult {
    type V = ResultModel;

    open spec fn deep_view(&self) -> ResultModel {
        self.view()
    }
}

/// A outcome row carrying an error text: how a failed fetch surfaces in the
/// result matrix.
pub open spec fn spec_error_row(m: Seq<char>) -> ResultModel {
    ResultModel { question: None, status: Status::Red, explanation: m }
}

impl CheckResult {
    /// A failing row that carries an error message as its explanation.
    pub fn from_error_message(message: String) -> (r: Self)
        ensures
            r@ == spec_error_row(message@),
    {
        CheckResult { question: None, status: Status::Red, explanation: message }
    }

    /// The result as the three display columns: question number, outcome,
    /// explanation.
    pub fn to_vec(&self) -> (r: Vec<String>)
        requires
            self.question is Some,
        ensures
            r.deep_view() == seq![
                self@.question.unwrap(),
                spec_status_value(self.status),
                self.explanation@,
            ],
    {
        let mut v: Vec<String> = Vec::new();
        let q = match &self.question {
            Some(q) => q.clone(),
            None => String::new(),
        };
        v.push(q);
        v.push(self.status.value());
        v.push(self.explanation.clone());
        proof {
            assert(v.deep_view() =~= seq![
                self@.question.unwrap(),
                spec_status_value(self.status),
                self.explanation@,
            ]);
        }
        v
    }
}

// ---------------------------------------------------------------------------
// Observations handed in by the application
// ---------------------------------------------------------------------------

/// One item of the repository root listing.
#[derive(Debug)]
pub struct ContentEntry {
    pub path: String,
    pub is_dir: bool,
}

pub struct ContentEntryModel {
    pub path: Seq<char>,
    pub is_dir: bool,
}

impl View for ContentEntry {
    type V = ContentEntryModel;

    open spec fn view(&self) -> ContentEntryModel {
        ContentEntryModel { path: self.path@, is_dir: self.is_dir }
    }
}

impl DeepView for ContentEntry {
    type V = ContentEntryModel;

    open spec fn deep_view(&self) -> ContentEntryModel {
        self.view()
    }
}

/// The latest release of a repository: its notes and when it was created
/// (seconds since the Unix epoch).
#[derive(Debug)]
pub struct ReleaseInfo {
    pub body: Option<String>,
    pub created_at: i64,
}

pub struct ReleaseInfoModel {
    pub body: Option<Seq<char>>,
    pub created_at: i64,
}

impl View for ReleaseInfo {
    type V = ReleaseInfoModel;

    open spec fn view(&self) -> ReleaseInfoModel {
        ReleaseInfoModel {
            body: match self.body {
                Some(b) => Some(b@),
                None => None,
            },
            created_at: self.created_at,
        }
    }
}

impl DeepView for ReleaseInfo {
    type V = ReleaseInfoModel;

    open spec fn deep_view(&self) -> ReleaseInfoModel {
        self.view()
    }
}

/// What the documentation page fetch yielded: whether the page exists, and
/// its text when it was fetched.
#[derive(Debug)]
pub struct DocData {
    pub page_exists: bool,
    pub page_html: String,
}

pub struct DocDataModel {
    pub page_exists: bool,
    pub page_html: Seq<char>,
}

impl View for DocData {
    type V = DocDataModel;

    open spec fn view(&self) -> DocDataModel {
        DocDataModel { page_exists: self.page_exists, page_html: self.page_html@ }
    }
}

impl DeepView for DocData {
    type V = DocDataModel;

    open spec fn deep_view(&self) -> DocDataModel {
        self.view()
    }
}

/// Everything the application fetched about one dependency, each observation
/// either a value or the text of the error its fetch produced. `now` is the
/// evaluation time in seconds since the Unix epoch. Timestamps are seconds
/// since the Unix epoch.
#[derive(Debug)]
pub struct RepoData {
    pub now: i64,
    pub repo_content: Result<Vec<ContentEntry>, String>,
    pub open_bug_comments: Result<Vec<u64>, String>,
    pub workflow_failed_runs: Result<Vec<u64>, String>,
    pub changelog_file_exists: Result<bool, String>,
    pub latest_release: Result<Option<ReleaseInfo>, String>,
    pub commits_this_year: Result<bool, String>,
    pub latest_commit: Result<i64, String>,
    pub doc: Result<DocData, String>,
}

pub struct RepoDataModel {
    pub now: i64,
    pub repo_content: Result<Seq<ContentEntryModel>, Seq<char>>,
    pub open_bug_comments: Result<Seq<u64>, Seq<char>>,
    pub workflow_failed_runs: Result<Seq<u64>, Seq<char>>,
    pub changelog_file_exists: Result<bool, Seq<char>>,
    pub latest_release: Result<Option<ReleaseInfoModel>, Seq<char>>,
    pub commits_this_year: Result<bool, Seq<char>>,
    pub latest_commit: Result<i64, Seq<char>>,
    pub doc: Result<DocDataModel, Seq<char>>,
}

impl View for RepoData {
    type V = RepoDataModel;

    open spec fn view(&self) -> RepoDataModel {
        RepoDataModel {
            now: self.now,
            repo_content: match &self.repo_content {
                Ok(v) => Ok(v.deep_view()),
                Err(m) => Err(m@),
            },
            open_bug_comments: match &self.open_bug_comments {
                Ok(v) => Ok(v@),
                Err(m) => Err(m@),
            },
            workflow_failed_runs: match &self.workflow_failed_runs {
                Ok(v) => Ok(v@),
                Err(m) => Err(m@),
            },
            changelog_file_exists: match &self.changelog_file_exists {
                Ok(b) => Ok(*b),
                Err(m) => Err(m@),
            },
            latest_release: match &self.latest_release {
                Ok(Some(r)) => Ok(Some(r@)),
                Ok(None) => Ok(None),
                Err(m) => Err(m@),
            },
            commits_this_year: match &self.commits_this_year {
                Ok(b) => Ok(*b),
                Err(m) => Err(m@),
            },
            latest_commit: match &self.latest_commit {
                Ok(t) => Ok(*t),
                Err(m) => Err(m@),
            },
            doc: match &self.doc {
                Ok(d) => Ok(d@),
                Err(m) => Err(m@),
            },
        }
    }
}

impl DeepView for RepoData {
    type V = RepoDataModel;

    open spec fn deep_view(&self) -> RepoDataModel {
        self.view()
    }
}

/// The difference of two timestamps fits the machine's signed range.
pub open spec fn spec_ts_ok(now: int, then: int) -> bool {
    i64::MIN < now - then <= i64::MAX
}

/// Every timestamp of the observations lies close enough to `now` for the
/// day arithmetic: a machine limit, not a rule of the evaluation.
pub open spec fn spec_data_bounded(d: RepoDataModel) -> bool {
    &&& match d.latest_commit {
        Ok(ts) => spec_ts_ok(d.now as int, ts as int),
        Err(_) => true,
    }
    &&& match d.latest_release {
        Ok(Some(r)) => spec_ts_ok(d.now as int, r.created_at as int),
        _ => true,
    }
}

// ---------------------------------------------------------------------------
// Day arithmetic
// ---------------------------------------------------------------------------

/// Whole days between two timestamps, truncated toward zero; negative when
/// `then` lies in the future.
pub open spec fn spec_day_diff(now: int, then: int) -> int {
    if now >= then {
        (now - then) / 86400
    } else {
        -((then - now) / 86400)
    }
}

/// Whole days between two timestamps, truncated toward zero.
pub fn day_diff(now: i64, then: i64) -> (r: i64)
    requires
        spec_ts_ok(now as int, then as int),
    ensures
        r == spec_day_diff(now as int, then as int),
        -(i64::MAX / 86400) <= r <= i64::MAX / 86400,
{
    if now >= then {
        let secs: u64 = (now - then) as u64;
        let days: u64 = secs / 86400;
        proof {
            assert(days <= u64::MAX / 86400) by (nonlinear_arith)
                requires
                    days == secs / 86400,
                    secs <= u64::MAX,
            ;
        }
        days as i64
    } else {
        let secs: u64 = (then - now) as u64;
        let days: u64 = secs / 86400;
        proof {
            assert(days <= u64::MAX / 86400) by (nonlinear_arith)
                requires
                    days == secs / 86400,
                    secs <= u64::MAX,
            ;
        }
        -(days as i64)
    }
}

// ---------------------------------------------------------------------------
// Production readiness
// ---------------------------------------------------------------------------

/// The remote (registry) version text of a dependency, when known.
pub open spec fn spec_remote_version(c: CrateModel) -> Option<Seq<char>> {
    match c.version {
        Some(v) => v.remote,
        None => None,
    }
}

pub open spec fn msg_no_remote_version() -> Seq<char> {
    "The registry reports no version for this crate"@
}

pub open spec fn msg_major_release() -> Seq<char> {
    "The project has at least one major release"@
}

pub open spec fn msg_minor_release() -> Seq<char> {
    "The project has at least two minor releases and at least 500 downloads"@
}

pub open spec fn msg_no_release() -> Seq<char> {
    "The project has no major or minor release"@
}

/// The production-readiness outcome: a major release passes; otherwise a
/// minor release with enough downloads partially passes; otherwise the check
/// fails. A missing or malformed remote version fails with the error text.
pub open spec fn spec_production_readiness(c: CrateModel) -> ResultModel {
    match spec_remote_version(c) {
        None => spec_error_row(msg_no_remote_version()),
        Some(t) => match spec_parse_version(t) {
            None => spec_error_row(spec_error_message(WmtError::MalformedVersion)),
            Some((major, minor, _patch)) => if major > 0 {
                ResultModel { question: None, status: Status::Green, explanation: msg_major_release() }
            } else if minor >= 1 && c.downloads >= MAX_DOWNLOAD_FOR_MINOR_VERSION {
                ResultModel {
                    question: None,
                    status: Status::Yellow,
                    explanation: msg_minor_release(),
                }
            } else {
                ResultModel { question: None, status: Status::Red, explanation: msg_no_release() }
            },
        },
    }
}

// ---------------------------------------------------------------------------
// Documentation
// ---------------------------------------------------------------------------

/// The link the documentation is looked up under: the documentation URL when
/// the registry reports one, else the source URL.
pub open spec fn spec_doc_link(c: CrateModel) -> Seq<char> {
    match c.documentation {
        Some(l) => l,
        None => match c.source_url {
            Some(u) => u,
            None => Seq::empty(),
        },
    }
}

/// The documentation outcome: a missing page fails; a README on the source
/// host passes; a hosted page passes, partially passes or fails by its
/// coverage percentage, with an unparseable percentage a caveat and a failing
/// build a failure.
pub open spec fn spec_documentation(c: CrateModel, d: RepoDataModel) -> ResultModel {
    match d.doc {
        Err(m) => spec_error_row(m),
        Ok(dd) => {
            let src = spec_doc_source(spec_doc_link(c));
            if !dd.page_exists {
                ResultModel {
                    question: None,
                    status: Status::Red,
                    explanation: "The crate has no README or doc.rs page"@,
                }
            } else if src == DocSource::GithubReadMe {
                ResultModel {
                    question: None,
                    status: Status::Green,
                    explanation: "README exists. Can't guarantee the coverage."@,
                }
            } else if class_texts_of(dd.page_html, "warning"@).len() == 0 {
                match spec_coverage_score(dd.page_html) {
                    Some(v) => ResultModel {
                        question: None,
                        status: if v >= 50 {
                            Status::Green
                        } else if v >= 10 {
                            Status::Yellow
                        } else {
                            Status::Red
                        },
                        explanation: spec_u64_digits(v as nat) + "% of the crate is documented"@,
                    },
                    None => ResultModel {
                        question: None,
                        status: Status::Yellow,
                        explanation:
                            "The crate is documented on doc.rs but there's no doc coverage information"@,
                    },
                }
            } else {
                ResultModel {
                    question: None,
                    status: Status::Red,
                    explanation: "The crate has a failing documentation build"@,
                }
            }
        },
    }
}

// ---------------------------------------------------------------------------
// Changelog
// ---------------------------------------------------------------------------

/// The changelog outcome: a CHANGELOG file passes (and takes precedence in
/// the explanation); else non-empty notes on the latest release pass; else
/// the check fails.
pub open spec fn spec_changelog(d: RepoDataModel) -> ResultModel {
    match d.changelog_file_exists {
        Err(m) => spec_error_row(m),
        Ok(true) => ResultModel {
            question: None,
            status: Status::Green,
            explanation: "The crate release has a CHANGELOG.md note"@,
        },
        Ok(false) => match d.latest_release {
            Err(m) => spec_error_row(m),
            Ok(Some(rel)) => if rel.body is Some && rel.body.unwrap().len() > 0 {
                ResultModel {
                    question: None,
                    status: Status::Green,
                    explanation: "The crate has a release changelog"@,
                }
            } else {
                ResultModel {
                    question: None,
                    status: Status::Red,
                    explanation: "The crate has no release changelog or CHANGELOG.md"@,
                }
            },
            Ok(None) => ResultModel {
                question: None,
                status: Status::Red,
                explanation: "The crate has no release changelog or CHANGELOG.md"@,
            },
        },
    }
}

// ---------------------------------------------------------------------------
// Tests
// ---------------------------------------------------------------------------

/// Whether the repository root listing holds a directory whose path contains
/// "test".
pub open spec fn spec_has_test_dir(entries: Seq<ContentEntryModel>) -> bool {
    exists|i: int|
        0 <= i < entries.len() && entries[i].is_dir && spec_contains(entries[i].path, "test"@)
}

/// The tests outcome: a test directory in the repository root passes, with
/// the caveat that coverage is not guaranteed.
pub open spec fn spec_tests(d: RepoDataModel) -> ResultModel {
    match d.repo_content {
        Err(m) => spec_error_row(m),
        Ok(entries) => if spec_has_test_dir(entries) {
            ResultModel {
                question: None,
                status: Status::Green,
                explanation: "Test files found. Can't guarantee coverage"@,
            }
        } else {
            ResultModel { question: None, status: Status::Red, explanation: "No test files found"@ }
        },
    }
}

/// The latest-language-version outcome: the same signal as the tests check,
/// with a caveat appended to a passing explanation.
pub open spec fn spec_tests_latest_language(d: RepoDataModel) -> ResultModel {
    let base = spec_tests(d);
    if base.status == Status::Green {
        ResultModel {
            question: base.question,
            status: base.status,
            explanation: base.explanation + " or if they run with latest version"@,
        }
    } else {
        base
    }
}

/// The outcome of a check no data source models.
pub open spec fn spec_no_support() -> ResultModel {
    ResultModel {
        question: None,
        status: Status::Grey,
        explanation: "This is currently not supported"@,
    }
}

// ---------------------------------------------------------------------------
// Bug response
// ---------------------------------------------------------------------------

/// How many open bugs have at most one comment: no response beyond the
/// report itself.
pub open spec fn spec_count_unanswered(cs: Seq<u64>) -> nat
    decreases cs.len(),
{
    if cs.len() == 0 {
        0
    } else {
        (if cs[0] <= 1 {
            1nat
        } else {
            0nat
        }) + spec_count_unanswered(cs.drop_first())
    }
}

proof fn lemma_count_unanswered_snoc(cs: Seq<u64>, x: u64)
    ensures
        spec_count_unanswered(cs.push(x)) == spec_count_unanswered(cs) + (if x <= 1 {
            1nat
        } else {
            0nat
        }),
    decreases cs.len(),
{
    if cs.len() == 0 {
        assert(cs.push(x)[0] == x);
        assert(cs.push(x).drop_first() =~= cs);
    } else {
        assert(cs.push(x).drop_first() =~= cs.drop_first().push(x));
        assert(cs.push(x)[0] == cs[0]);
        lemma_count_unanswered_snoc(cs.drop_first(), x);
    }
}

/// The bug-response outcome: no open bugs passes; any open bug without a
/// response fails, naming how many; otherwise all open bugs have responses
/// and the check passes.
pub open spec fn spec_bug_response(d: RepoDataModel) -> ResultModel {
    match d.open_bug_comments {
        Err(m) => spec_error_row(m),
        Ok(cs) => if cs.len() == 0 {
            ResultModel {
                question: None,
                status: Status::Green,
                explanation: "There are no open bugs"@,
            }
        } else {
            let unanswered = spec_count_unanswered(cs);
            if unanswered > 0 {
                ResultModel {
                    question: None,
                    status: Status::Red,
                    explanation: "There are "@ + spec_u64_digits(unanswered)
                        + " open bugs with no response from the maintainer(s)"@,
                }
            } else {
                ResultModel {
                    question: None,
                    status: Status::Green,
                    explanation: "The maintainer(s) have responded to all open bugs"@,
                }
            }
        },
    }
}

// ---------------------------------------------------------------------------
// Continuous integration
// ---------------------------------------------------------------------------

/// How many workflows have at least one failed run.
pub open spec fn spec_count_failing(rs: Seq<u64>) -> nat
    decreases rs.len(),
{
    if rs.len() == 0 {
        0
    } else {
        (if rs[0] > 0 {
            1nat
        } else {
            0nat
        }) + spec_count_failing(rs.drop_first())
    }
}

proof fn lemma_count_failing_snoc(rs: Seq<u64>, x: u64)
    ensures
        spec_count_failing(rs.push(x)) == spec_count_failing(rs) + (if x > 0 {
            1nat
        } else {
            0nat
        }),
    decreases rs.len(),
{
    if rs.len() == 0 {
        assert(rs.push(x)[0] == x);
        assert(rs.push(x).drop_first() =~= rs);
    } else {
        assert(rs.push(x).drop_first() =~= rs.drop_first().push(x));
        assert(rs.push(x)[0] == rs[0]);
        lemma_count_failing_snoc(rs.drop_first(), x);
    }
}

/// The CI-configuration outcome: any workflow passes, naming the count.
pub open spec fn spec_ci_configuration(d: RepoDataModel) -> ResultModel {
    match d.workflow_failed_runs {
        Err(m) => spec_error_row(m),
        Ok(rs) => if rs.len() > 0 {
            ResultModel {
                question: None,
                status: Status::Green,
                explanation: "The crate has "@ + spec_u64_digits(rs.len()) + " Github workflow(s)"@,
            }
        } else {
            ResultModel {
                question: None,
                status: Status::Red,
                explanation: "The crate has no Github workflow"@,
            }
        },
    }
}

/// The CI-status outcome: no workflows fails; otherwise the explanation names
/// how many workflows have failing runs, and the outcome stays passing either
/// way — the failing count is informational only.
pub open spec fn spec_ci_status(d: RepoDataModel) -> ResultModel {
    match d.workflow_failed_runs {
        Err(m) => spec_error_row(m),
        Ok(rs) => if rs.len() == 0 {
            ResultModel {
                question: None,
                status: Status::Red,
                explanation: "The crate has no Github workflow"@,
            }
        } else {
            let failing = spec_count_failing(rs);
            if failing > 0 {
                ResultModel {
                    question: None,
                    status: Status::Green,
                    explanation: spec_u64_digits(failing) + " of the workflows failed"@,
                }
            } else {
                ResultModel {
                    question: None,
                    status: Status::Green,
                    explanation: "No failing workflow found"@,
                }
            }
        },
    }
}

// ---------------------------------------------------------------------------
// Activity
// ---------------------------------------------------------------------------

/// The usage outcome: any commit since the cutoff passes.
pub open spec fn spec_usage(d: RepoDataModel) -> ResultModel {
    match d.commits_this_year {
        Err(m) => spec_error_row(m),
        Ok(true) => ResultModel {
            question: None,
            status: Status::Green,
            explanation: "There have been commits this year"@,
        },
        Ok(false) => ResultModel {
            question: None,
            status: Status::Red,
            explanation: "There have been no commits this year"@,
        },
    }
}

/// The commit-recency outcome: the day difference between now and the most
/// recent commit, failing when the difference is under a year.
pub open spec fn spec_latest_commits(d: RepoDataModel) -> ResultModel {
    match d.latest_commit {
        Err(m) => spec_error_row(m),
        Ok(ts) => {
            let diff = spec_day_diff(d.now as int, ts as int);
            ResultModel {
                question: None,
                status: if diff < 365 {
                    Status::Red
                } else {
                    Status::Green
                },
                explanation: "The last commit was "@ + spec_i64_digits(diff) + " day(s) ago"@,
            }
        },
    }
}

/// The release-recency outcome: no release fails; a release over a year old
/// partially passes; a recent release passes with the day count stated.
pub open spec fn spec_latest_release(d: RepoDataModel) -> ResultModel {
    match d.latest_release {
        Err(m) => spec_error_row(m),
        Ok(None) => ResultModel {
            question: None,
            status: Status::Red,
            explanation: "There has no been release."@,
        },
        Ok(Some(rel)) => {
            let diff = spec_day_diff(d.now as int, rel.created_at as int);
            if diff > 365 {
                ResultModel {
                    question: None,
                    status: Status::Yellow,
                    explanation: "The last release was over a year ago"@,
                }
            } else {
                ResultModel {
                    question: None,
                    status: Status::Green,
                    explanation: "The last release was "@ + spec_i64_digits(diff) + " day(s) ago"@,
                }
            }
        },
    }
}

// ---------------------------------------------------------------------------
// Dispatch and the result matrix
// ---------------------------------------------------------------------------

/// The outcome of the evaluator a question is bound to, before the question
/// number is attached.
pub open spec fn spec_check_body(c: CrateModel, name: CheckNames, d: RepoDataModel) -> ResultModel {
    match name {
        CheckNames::ProductionReadiness => spec_production_readiness(c),
        CheckNames::Documentation => spec_documentation(c, d),
        CheckNames::Changelog => spec_changelog(d),
        CheckNames::Tests => spec_tests(d),
        CheckNames::TestsRunAgainstLatestLanguageVersion => spec_tests_latest_language(d),
        CheckNames::TestsRunAgainstLatestIntegrationVersion => spec_no_support(),
        CheckNames::BugReportResponse => spec_bug_response(d),
        CheckNames::ContinuousIntegrationConfiguration => spec_ci_configuration(d),
        CheckNames::ContinuousIntegrationPasses => spec_ci_status(d),
        CheckNames::Usage => spec_usage(d),
        CheckNames::LatestCommits => spec_latest_commits(d),
        CheckNames::LatestRelease => spec_latest_release(d),
    }
}

/// One result cell: the evaluator's outcome with the question number
/// attached.
pub open spec fn spec_check_question(c: CrateModel, q: QuestionModel, d: RepoDataModel)
    -> ResultModel {
    let body = spec_check_body(c, q.name, d);
    ResultModel { question: Some(q.number), status: body.status, explanation: body.explanation }
}

/// The questions a selector picks: the whole catalog for "0" (or no
/// selector), else the catalog entries with that number.
pub open spec fn spec_selected_questions(q: Option<Seq<char>>) -> Seq<QuestionModel> {
    let qn = match q {
        None => "0"@,
        Some(s) => s,
    };
    if qn == "0"@ {
        spec_catalog()
    } else {
        spec_catalog().filter(|x: QuestionModel| x.number == qn)
    }
}

/// The result rows of one dependency: one row per selected question, in
/// catalog order.
pub open spec fn spec_rows(c: CrateModel, d: RepoDataModel, sel: Seq<QuestionModel>) -> Seq<
    Seq<ResultModel>,
> {
    Seq::new(sel.len(), |j: int| seq![spec_check_question(c, sel[j], d)])
}

/// The whole result matrix: for every dependency with a source URL, its rows,
/// in dependency order; a dependency without a source URL contributes
/// nothing.
pub open spec fn spec_matrix(
    cs: Seq<CrateModel>,
    ds: Seq<RepoDataModel>,
    sel: Seq<QuestionModel>,
) -> Seq<Seq<ResultModel>>
    decreases cs.len(),
{
    if cs.len() == 0 {
        Seq::empty()
    } else {
        (if cs[0].source_url is Some {
            spec_rows(cs[0], ds[0], sel)
        } else {
            Seq::empty()
        }) + spec_matrix(cs.drop_first(), ds.drop_first(), sel)
    }
}

proof fn lemma_matrix_snoc(
    cs: Seq<CrateModel>,
    ds: Seq<RepoDataModel>,
    sel: Seq<QuestionModel>,
    c: CrateModel,
    d: RepoDataModel,
)
    requires
        cs.len() == ds.len(),
    ensures
        spec_matrix(cs.push(c), ds.push(d), sel) == spec_matrix(cs, ds, sel) + (if c.source_url
            is Some {
            spec_rows(c, d, sel)
        } else {
            Seq::<Seq<ResultModel>>::empty()
        }),
    decreases cs.len(),
{
    let tail: Seq<Seq<ResultModel>> = if c.source_url is Some {
        spec_rows(c, d, sel)
    } else {
        Seq::empty()
    };
    if cs.len() == 0 {
        assert(cs.push(c)[0] == c);
        assert(ds.push(d)[0] == d);
        assert(cs.push(c).drop_first() =~= cs);
        assert(ds.push(d).drop_first() =~= ds);
        assert(spec_matrix(cs, ds, sel) =~= Seq::<Seq<ResultModel>>::empty());
        assert(spec_matrix(cs.push(c), ds.push(d), sel) =~= spec_matrix(cs, ds, sel) + tail);
    } else {
        assert(cs.push(c).drop_first() =~= cs.drop_first().push(c));
        assert(ds.push(d).drop_first() =~= ds.drop_first().push(d));
        assert(cs.push(c)[0] == cs[0]);
        assert(ds.push(d)[0] == ds[0]);
        lemma_matrix_snoc(cs.drop_first(), ds.drop_first(), sel, c, d);
        let head: Seq<Seq<ResultModel>> = if cs[0].source_url is Some {
            spec_rows(cs[0], ds[0], sel)
        } else {
            Seq::empty()
        };
        assert(head + (spec_matrix(cs.drop_first(), ds.drop_first(), sel) + tail) =~= (head
            + spec_matrix(cs.drop_first(), ds.drop_first(), sel)) + tail);
        assert(spec_matrix(cs.push(c), ds.push(d), sel) =~= spec_matrix(cs, ds, sel) + tail);
    }
}

// ---------------------------------------------------------------------------
// Laws
// ---------------------------------------------------------------------------

/// How many dependencies carry a source URL.
pub open spec fn spec_count_with_source(cs: Seq<CrateModel>) -> nat
    decreases cs.len(),
{
    if cs.len() == 0 {
        0
    } else {
        (if cs[0].source_url is Some {
            1nat
        } else {
            0nat
        }) + spec_count_with_source(cs.drop_first())
    }
}

/// The matrix holds rows only for the dependencies with a source URL: one
/// row per selected question for each of them, and none for the others.
pub proof fn lemma_matrix_size(cs: Seq<CrateModel>, ds: Seq<RepoDataModel>, sel: Seq<QuestionModel>)
    requires
        cs.len() == ds.len(),
    ensures
        spec_matrix(cs, ds, sel).len() == spec_count_with_source(cs) * sel.len(),
    decreases cs.len(),
{
    if cs.len() == 0 {
        assert(spec_matrix(cs, ds, sel).len() == 0);
        assert(spec_count_with_source(cs) * sel.len() == 0) by (nonlinear_arith)
            requires
                spec_count_with_source(cs) == 0,
        ;
    } else {
        lemma_matrix_size(cs.drop_first(), ds.drop_first(), sel);
        let rest = spec_count_with_source(cs.drop_first());
        if cs[0].source_url is Some {
            assert(spec_rows(cs[0], ds[0], sel).len() == sel.len());
            assert(spec_matrix(cs, ds, sel).len() == sel.len() + rest * sel.len());
            assert(spec_count_with_source(cs) == rest + 1);
            assert((rest + 1) * sel.len() == rest * sel.len() + sel.len()) by (nonlinear_arith);
        } else {
            assert(spec_matrix(cs, ds, sel).len() == rest * sel.len());
            assert(spec_count_with_source(cs) == rest);
        }
    }
}

/// The production-readiness thresholds, for every parsed version and every
/// download count: a major release passes; no major release but a minor
/// release with enough downloads partially passes; anything else fails.
pub proof fn lemma_production_readiness_thresholds(
    c: CrateModel,
    major: u64,
    minor: u64,
    patch: u64,
)
    requires
        spec_remote_version(c) is Some,
        spec_parse_version(spec_remote_version(c).unwrap()) == Some((major, minor, patch)),
    ensures
        major > 0 ==> spec_production_readiness(c).status == Status::Green,
        (major == 0 && minor >= 1 && c.downloads >= MAX_DOWNLOAD_FOR_MINOR_VERSION)
            ==> spec_production_readiness(c).status == Status::Yellow,
        (major == 0 && (minor == 0 || c.downloads < MAX_DOWNLOAD_FOR_MINOR_VERSION))
            ==> spec_production_readiness(c).status == Status::Red,
{
}

/// The count of unanswered bugs is positive exactly when some open bug has at
/// most one comment.
proof fn lemma_count_unanswered_pos(cs: Seq<u64>)
    ensures
        spec_count_unanswered(cs) > 0 <==> exists|i: int| 0 <= i < cs.len() && cs[i] <= 1,
    decreases cs.len(),
{
    if cs.len() > 0 {
        lemma_count_unanswered_pos(cs.drop_first());
        if cs[0] <= 1 {
        } else if spec_count_unanswered(cs) > 0 {
            let j = choose|j: int|
                0 <= j < cs.drop_first().len() && cs.drop_first()[j] <= 1;
            assert(cs[j + 1] <= 1);
        } else if exists|i: int| 0 <= i < cs.len() && cs[i] <= 1 {
            let i = choose|i: int| 0 <= i < cs.len() && cs[i] <= 1;
            assert(cs.drop_first()[i - 1] <= 1);
        }
    }
}

/// The bug-response partition, for every list of open bugs: none passes; any
/// bug without a response fails; all bugs answered passes.
pub proof fn lemma_bug_response_partition(d: RepoDataModel, cs: Seq<u64>)
    requires
        d.open_bug_comments == Ok::<Seq<u64>, Seq<char>>(cs),
    ensures
        cs.len() == 0 ==> spec_bug_response(d).status == Status::Green,
        (exists|i: int| 0 <= i < cs.len() && cs[i] <= 1) ==> spec_bug_response(d).status
            == Status::Red,
        (cs.len() > 0 && (forall|i: int| 0 <= i < cs.len() ==> cs[i] > 1)) ==> spec_bug_response(
            d,
        ).status == Status::Green,
{
    lemma_count_unanswered_pos(cs);
}

/// Evaluating the same dependency and question against unchanged
/// observations yields the same outcome and the same explanation: the result
/// is a function of the three values alone.
pub proof fn lemma_evaluation_idempotent(
    c1: &Crate,
    c2: &Crate,
    q1: &Question,
    q2: &Question,
    d1: &RepoData,
    d2: &RepoData,
)
    requires
        c1@ == c2@,
        q1@ == q2@,
        d1@ == d2@,
    ensures
        spec_check_question(c1@, q1@, d1@) == spec_check_question(c2@, q2@, d2@),
{
}

// ---------------------------------------------------------------------------
// The dependency checker
// ---------------------------------------------------------------------------

/// A set of dependencies under evaluation.
#[derive(Debug)]
pub struct CrateCheck {
    pub crates: Vec<Crate>,
    pub results: Option<Vec<Vec<CheckResult>>>,
    pub verbose: bool,
}

impl CrateCheck {
    /// A checker over already-resolved dependencies.
    pub fn new(crates: Vec<Crate>, verbose: bool) -> (r: Self)
        ensures
            r.crates == crates,
            r.results is None,
            r.verbose == verbose,
    {
        CrateCheck { crates, results: None, verbose }
    }

    /// Checks production readiness: at least one major release, or at least
    /// one minor release with enough downloads.
    pub fn check_production_readiness(&self, cargo_crate: &Crate) -> (r: CheckResult)
        ensures
            r@ == spec_production_readiness(cargo_crate@),
    {
        let remote = match &cargo_crate.version {
            None => None,
            Some(v) => match &v.remote {
                None => None,
                Some(t) => Some(t.clone()),
            },
        };
        let text = match remote {
            None => {
                return CheckResult::from_error_message(
                    String::from_str("The registry reports no version for this crate"),
                );
            },
            Some(t) => t,
        };
        let version = match Version::from_version_text(text.as_str()) {
            Err(e) => {
                return CheckResult::from_error_message(e.message());
            },
            Ok(v) => v,
        };
        if version.at_least_one_major_release() {
            CheckResult {
                question: None,
                status: Status::Green,
                explanation: String::from_str("The project has at least one major release"),
            }
        } else if version.at_least_one_minor_release() && cargo_crate.downloads
            >= MAX_DOWNLOAD_FOR_MINOR_VERSION {
            CheckResult {
                question: None,
                status: Status::Yellow,
                explanation: String::from_str(
                    "The project has at least two minor releases and at least 500 downloads",
                ),
            }
        } else {
            CheckResult {
                question: None,
                status: Status::Red,
                explanation: String::from_str("The project has no major or minor release"),
            }
        }
    }

    /// Checks the documentation: a README on the source host, or a hosted
    /// documentation page judged by its build status and coverage.
    pub fn check_documentation(&self, cargo_crate: &Crate, data: &RepoData) -> (r: CheckResult)
        requires
            cargo_crate@.documentation is Some || cargo_crate@.source_url is Some,
        ensures
            r@ == spec_documentation(cargo_crate@, data@),
    {
        let doc_data = match &data.doc {
            Err(m) => {
                return CheckResult::from_error_message(m.clone());
            },
            Ok(d) => d,
        };
        let link: &String = match &cargo_crate.documentation {
            Some(l) => l,
            None => match &cargo_crate.source_url {
                Some(u) => u,
                None => {
                    proof {
                        assert(false);
                    }
                    return CheckResult::from_error_message(String::new());
                },
            },
        };
        let doc_service = DocService::new(cargo_crate.name.as_str(), link.as_str());
        if !doc_data.page_exists {
            return CheckResult {
                question: None,
                status: Status::Red,
                explanation: String::from_str("The crate has no README or doc.rs page"),
            };
        }
        match doc_service.doc_source {
            DocSource::GithubReadMe => CheckResult {
                question: None,
                status: Status::Green,
                explanation: String::from_str("README exists. Can't guarantee the coverage."),
            },
            DocSource::RustDoc => {
                if doc_service.has_successful_build(doc_data.page_html.as_str()) {
                    match doc_service.get_rust_doc_coverage_score(doc_data.page_html.as_str()) {
                        Ok(value) => {
                            let mut explanation = u64_to_string(value);
                            explanation.append("% of the crate is documented");
                            let status = if value >= 50 {
                                Status::Green
                            } else if value >= 10 {
                                Status::Yellow
                            } else {
                                Status::Red
                            };
                            CheckResult { question: None, status, explanation }
                        },
                        Err(_) => CheckResult {
                            question: None,
                            status: Status::Yellow,
                            explanation: String::from_str(
                                "The crate is documented on doc.rs but there's no doc coverage information",
                            ),
                        },
                    }
                } else {
                    CheckResult {
                        question: None,
                        status: Status::Red,
                        explanation: String::from_str("The crate has a failing documentation build"),
                    }
                }
            },
        }
    }

    /// Checks the changelog: a CHANGELOG file at the default branch, or
    /// non-empty notes on the latest release.
    pub fn check_changelog(&self, data: &RepoData) -> (r: CheckResult)
        ensures
            r@ == spec_changelog(data@),
    {
        match &data.changelog_file_exists {
            Err(m) => CheckResult::from_error_message(m.clone()),
            Ok(true) => CheckResult {
                question: None,
                status: Status::Green,
                explanation: String::from_str("The crate release has a CHANGELOG.md note"),
            },
            Ok(false) => match &data.latest_release {
                Err(m) => CheckResult::from_error_message(m.clone()),
                Ok(Some(rel)) => {
                    let has_notes = match &rel.body {
                        Some(b) => b.as_str().unicode_len() > 0,
                        None => false,
                    };
                    if has_notes {
                        CheckResult {
                            question: None,
                            status: Status::Green,
                            explanation: String::from_str("The crate has a release changelog"),
                        }
                    } else {
                        CheckResult {
                            question: None,
                            status: Status::Red,
                            explanation: String::from_str(
                                "The crate has no release changelog or CHANGELOG.md",
                            ),
                        }
                    }
                },
                Ok(None) => CheckResult {
                    question: None,
                    status: Status::Red,
                    explanation: String::from_str(
                        "The crate has no release changelog or CHANGELOG.md",
                    ),
                },
            },
        }
    }

    /// Checks for tests: a directory whose path contains "test" in the
    /// repository root listing.
    pub fn check_tests(&self, data: &RepoData) -> (r: CheckResult)
        ensures
            r@ == spec_tests(data@),
    {
        proof {
            reveal_strlit("test");
        }
        let entries = match &data.repo_content {
            Err(m) => {
                return CheckResult::from_error_message(m.clone());
            },
            Ok(v) => v,
        };
        let mut found = false;
        let mut i: usize = 0;
        let n = entries.len();
        while i < n
            invariant
                n == entries.len(),
                0 <= i <= n,
                "test"@.len() >= 1,
                found == exists|k: int|
                    0 <= k < i && entries@[k]@.is_dir && spec_contains(entries@[k]@.path, "test"@),
            decreases n - i,
        {
            if entries[i].is_dir && contains_sub(entries[i].path.as_str(), "test") {
                found = true;
            }
            i = i + 1;
        }
        proof {
            assert(forall|k: int| 0 <= k < n ==> entries.deep_view()[k] == entries@[k]@);
            if found {
                let k = choose|k: int|
                    0 <= k < i && entries@[k]@.is_dir && spec_contains(entries@[k]@.path, "test"@);
                assert(entries.deep_view()[k].is_dir && spec_contains(
                    entries.deep_view()[k].path,
                    "test"@,
                ));
                assert(spec_has_test_dir(entries.deep_view()));
            } else if spec_has_test_dir(entries.deep_view()) {
                let k = choose|k: int|
                    0 <= k < entries.deep_view().len() && entries.deep_view()[k].is_dir
                        && spec_contains(entries.deep_view()[k].path, "test"@);
                assert(entries@[k]@.is_dir && spec_contains(entries@[k]@.path, "test"@));
                assert(false);
            }
        }
        if found {
            CheckResult {
                question: None,
                status: Status::Green,
                explanation: String::from_str("Test files found. Can't guarantee coverage"),
            }
        } else {
            CheckResult {
                question: None,
                status: Status::Red,
                explanation: String::from_str("No test files found"),
            }
        }
    }

    /// Checks whether the tests run with the latest language version: the
    /// same signal as the tests check, with a caveat appended to a passing
    /// explanation.
    pub fn check_runs_against_latest_language(&self, data: &RepoData) -> (r: CheckResult)
        ensures
            r@ == spec_tests_latest_language(data@),
    {
        let base = self.check_tests(data);
        let CheckResult { question, status, explanation } = base;
        match status {
            Status::Green => {
                let mut explanation = explanation;
                explanation.append(" or if they run with latest version");
                CheckResult { question, status, explanation }
            },
            _ => CheckResult { question, status, explanation },
        }
    }

    /// The outcome of a check no data source models.
    pub fn no_support_result(&self) -> (r: CheckResult)
        ensures
            r@ == spec_no_support(),
    {
        CheckResult {
            question: None,
            status: Status::Grey,
            explanation: String::from_str("This is currently not supported"),
        }
    }

    /// Checks the response to bug reports: open bugs labeled "bug",
    /// partitioned by whether they have a response.
    pub fn check_bug_response(&self, data: &RepoData) -> (r: CheckResult)
        ensures
            r@ == spec_bug_response(data@),
    {
        let counts = match &data.open_bug_comments {
            Err(m) => {
                return CheckResult::from_error_message(m.clone());
            },
            Ok(v) => v,
        };
        if counts.len() == 0 {
            return CheckResult {
                question: None,
                status: Status::Green,
                explanation: String::from_str("There are no open bugs"),
            };
        }
        let mut unanswered: usize = 0;
        let mut i: usize = 0;
        let n = counts.len();
        proof {
            assert(counts@.take(0) =~= Seq::<u64>::empty());
        }
        while i < n
            invariant
                n == counts.len(),
                0 <= i <= n,
                unanswered <= i,
                unanswered as nat == spec_count_unanswered(counts@.take(i as int)),
            decreases n - i,
        {
            proof {
                assert(counts@.take(i as int + 1) =~= counts@.take(i as int).push(
                    counts@[i as int],
                ));
                lemma_count_unanswered_snoc(counts@.take(i as int), counts@[i as int]);
            }
            if counts[i] <= 1 {
                unanswered = unanswered + 1;
            }
            i = i + 1;
        }
        proof {
            assert(counts@.take(n as int) =~= counts@);
        }
        if unanswered > 0 {
            let mut explanation = String::from_str("There are ");
            let digits = u64_to_string(unanswered as u64);
            explanation.append(digits.as_str());
            explanation.append(" open bugs with no response from the maintainer(s)");
            proof {
                assert(explanation@ =~= "There are "@ + spec_u64_digits(
                    spec_count_unanswered(counts@),
                ) + " open bugs with no response from the maintainer(s)"@);
            }
            CheckResult { question: None, status: Status::Red, explanation }
        } else {
            CheckResult {
                question: None,
                status: Status::Green,
                explanation: String::from_str("The maintainer(s) have responded to all open bugs"),
            }
        }
    }

    /// Checks that a CI configuration exists: any workflow at all.
    pub fn check_continuous_integration(&self, data: &RepoData) -> (r: CheckResult)
        ensures
            r@ == spec_ci_configuration(data@),
    {
        let runs = match &data.workflow_failed_runs {
            Err(m) => {
                return CheckResult::from_error_message(m.clone());
            },
            Ok(v) => v,
        };
        let count = runs.len();
        if count > 0 {
            let mut explanation = String::from_str("The crate has ");
            let digits = u64_to_string(count as u64);
            explanation.append(digits.as_str());
            explanation.append(" Github workflow(s)");
            proof {
                assert(explanation@ =~= "The crate has "@ + spec_u64_digits(runs@.len())
                    + " Github workflow(s)"@);
            }
            CheckResult { question: None, status: Status::Green, explanation }
        } else {
            CheckResult {
                question: None,
                status: Status::Red,
                explanation: String::from_str("The crate has no Github workflow"),
            }
        }
    }

    /// How many workflows have at least one failed run.
    pub fn get_failing_workflows(&self, failed_runs: &Vec<u64>) -> (r: u64)
        ensures
            r as nat == spec_count_failing(failed_runs@),
    {
        let mut failing: usize = 0;
        let mut i: usize = 0;
        let n = failed_runs.len();
        proof {
            assert(failed_runs@.take(0) =~= Seq::<u64>::empty());
        }
        while i < n
            invariant
                n == failed_runs.len(),
                0 <= i <= n,
                failing <= i,
                failing as nat == spec_count_failing(failed_runs@.take(i as int)),
            decreases n - i,
        {
            proof {
                assert(failed_runs@.take(i as int + 1) =~= failed_runs@.take(i as int).push(
                    failed_runs@[i as int],
                ));
                lemma_count_failing_snoc(failed_runs@.take(i as int), failed_runs@[i as int]);
            }
            if failed_runs[i] > 0 {
                failing = failing + 1;
            }
            i = i + 1;
        }
        proof {
            assert(failed_runs@.take(n as int) =~= failed_runs@);
        }
        failing as u64
    }

    /// Checks the CI status: the explanation names how many workflows have
    /// failing runs; the outcome stays passing either way.
    pub fn check_ci_status(&self, data: &RepoData) -> (r: CheckResult)
        ensures
            r@ == spec_ci_status(data@),
    {
        let runs = match &data.workflow_failed_runs {
            Err(m) => {
                return CheckResult::from_error_message(m.clone());
            },
            Ok(v) => v,
        };
        if runs.len() == 0 {
            return CheckResult {
                question: None,
                status: Status::Red,
                explanation: String::from_str("The crate has no Github workflow"),
            };
        }
        let failing = self.get_failing_workflows(runs);
        if failing > 0 {
            let mut explanation = u64_to_string(failing);
            explanation.append(" of the workflows failed");
            proof {
                assert(explanation@ =~= spec_u64_digits(spec_count_failing(runs@))
                    + " of the workflows failed"@);
            }
            CheckResult { question: None, status: Status::Green, explanation }
        } else {
            CheckResult {
                question: None,
                status: Status::Green,
                explanation: String::from_str("No failing workflow found"),
            }
        }
    }

    /// Checks recent usage: any commit since the cutoff date.
    pub fn check_usage(&self, data: &RepoData) -> (r: CheckResult)
        ensures
            r@ == spec_usage(data@),
    {
        match &data.commits_this_year {
            Err(m) => CheckResult::from_error_message(m.clone()),
            Ok(true) => CheckResult {
                question: None,
                status: Status::Green,
                explanation: String::from_str("There have been commits this year"),
            },
            Ok(false) => CheckResult {
                question: None,
                status: Status::Red,
                explanation: String::from_str("There have been no commits this year"),
            },
        }
    }

    /// Checks commit recency: the day difference between now and the most
    /// recent commit, failing when the difference is under a year.
    pub fn check_latest_commits(&self, data: &RepoData) -> (r: CheckResult)
        requires
            spec_data_bounded(data@),
        ensures
            r@ == spec_latest_commits(data@),
    {
        let ts = match &data.latest_commit {
            Err(m) => {
                return CheckResult::from_error_message(m.clone());
            },
            Ok(t) => *t,
        };
        let diff = day_diff(data.now, ts);
        let status = if diff < 365 {
            Status::Red
        } else {
            Status::Green
        };
        let mut explanation = String::from_str("The last commit was ");
        let digits = i64_to_string(diff);
        explanation.append(digits.as_str());
        explanation.append(" day(s) ago");
        proof {
            assert(explanation@ =~= "The last commit was "@ + spec_i64_digits(
                spec_day_diff(data@.now as int, ts as int),
            ) + " day(s) ago"@);
        }
        CheckResult { question: None, status, explanation }
    }

    /// Checks release recency: no release fails; a release over a year old
    /// partially passes; a recent release passes with the day count stated.
    pub fn check_latest_release(&self, data: &RepoData) -> (r: CheckResult)
        requires
            spec_data_bounded(data@),
        ensures
            r@ == spec_latest_release(data@),
    {
        let release = match &data.latest_release {
            Err(m) => {
                return CheckResult::from_error_message(m.clone());
            },
            Ok(None) => {
                return CheckResult {
                    question: None,
                    status: Status::Red,
                    explanation: String::from_str("There has no been release."),
                };
            },
            Ok(Some(rel)) => rel,
        };
        let diff = day_diff(data.now, release.created_at);
        if diff > 365 {
            CheckResult {
                question: None,
                status: Status::Yellow,
                explanation: String::from_str("The last release was over a year ago"),
            }
        } else {
            let mut explanation = String::from_str("The last release was ");
            let digits = i64_to_string(diff);
            explanation.append(digits.as_str());
            explanation.append(" day(s) ago");
            proof {
                assert(explanation@ =~= "The last release was "@ + spec_i64_digits(
                    spec_day_diff(data@.now as int, release.created_at as int),
                ) + " day(s) ago"@);
            }
            CheckResult { question: None, status: Status::Green, explanation }
        }
    }

    /// Runs the evaluator a question is bound to and attaches the question
    /// number to the result.
    pub fn check_question(&self, cargo_crate: &Crate, question: &Question, data: &RepoData) -> (r:
        Vec<CheckResult>)
        requires
            cargo_crate@.documentation is Some || cargo_crate@.source_url is Some,
            spec_data_bounded(data@),
        ensures
            r.deep_view() == seq![spec_check_question(cargo_crate@, question@, data@)],
    {
        let body = match question.name {
            CheckNames::ProductionReadiness => self.check_production_readiness(cargo_crate),
            CheckNames::Documentation => self.check_documentation(cargo_crate, data),
            CheckNames::Changelog => self.check_changelog(data),
            CheckNames::Tests => self.check_tests(data),
            CheckNames::TestsRunAgainstLatestLanguageVersion => self.check_runs_against_latest_language(
                data,
            ),
            CheckNames::TestsRunAgainstLatestIntegrationVersion => self.no_support_result(),
            CheckNames::BugReportResponse => self.check_bug_response(data),
            CheckNames::ContinuousIntegrationConfiguration => self.check_continuous_integration(
                data,
            ),
            CheckNames::ContinuousIntegrationPasses => self.check_ci_status(data),
            CheckNames::Usage => self.check_usage(data),
            CheckNames::LatestCommits => self.check_latest_commits(data),
            CheckNames::LatestRelease => self.check_latest_release(data),
        };
        let CheckResult { question: _, status, explanation } = body;
        let result = CheckResult { question: Some(question.number.clone()), status, explanation };
        let mut v: Vec<CheckResult> = Vec::new();
        v.push(result);
        proof {
            assert(v.deep_view() =~= seq![spec_check_question(cargo_crate@, question@, data@)]);
        }
        v
    }

    /// Runs the selected questions over every dependency that has a source
    /// URL, in dependency order and catalog order: one row per (dependency,
    /// question) pair. A dependency without a source URL is skipped whole.
    pub fn run_checks(&self, question: Option<String>, data: &Vec<RepoData>) -> (r: Vec<
        Vec<CheckResult>,
    >)
        requires
            data.len() == self.crates.len(),
            forall|i: int| 0 <= i < data@.len() ==> spec_data_bounded(#[trigger] data@[i]@),
        ensures
            r.deep_view() == spec_matrix(
                self.crates.deep_view(),
                data.deep_view(),
                spec_selected_questions(view_opt(question)),
            ),
    {
        let number = match &question {
            None => String::from_str("0"),
            Some(q) => q.clone(),
        };
        let questions = Questions { verbose: self.verbose };
        let selected: Vec<Question> = if str_eq(number.as_str(), "0") {
            questions.list().questions
        } else {
            questions.describe(number)
        };
        let ghost sel = spec_selected_questions(view_opt(question));
        proof {
            assert(selected.deep_view() == sel);
        }
        let mut results: Vec<Vec<CheckResult>> = Vec::new();
        let mut i: usize = 0;
        let n = self.crates.len();
        let sn = selected.len();
        proof {
            assert(self.crates.deep_view().take(0) =~= Seq::<CrateModel>::empty());
            assert(results.deep_view() =~= spec_matrix(
                self.crates.deep_view().take(0),
                data.deep_view().take(0),
                sel,
            ));
        }
        while i < n
            invariant
                n == self.crates.len(),
                sn == selected.len(),
                data.len() == self.crates.len(),
                forall|k: int| 0 <= k < data@.len() ==> spec_data_bounded(#[trigger] data@[k]@),
                selected.deep_view() == sel,
                0 <= i <= n,
                results.deep_view() == spec_matrix(
                    self.crates.deep_view().take(i as int),
                    data.deep_view().take(i as int),
                    sel,
                ),
            decreases n - i,
        {
            let cargo_crate = &self.crates[i];
            let ghost cm = self.crates.deep_view()[i as int];
            let ghost dm = data.deep_view()[i as int];
            proof {
                assert(cm == self.crates@[i as int]@);
                assert(dm == data@[i as int]@);
            }
            if cargo_crate.source_url.is_some() {
                let mut j: usize = 0;
                proof {
                    assert(spec_rows(cm, dm, sel).take(0) =~= Seq::<Seq<ResultModel>>::empty());
                    assert(results.deep_view() + spec_rows(cm, dm, sel).take(0) =~= results.deep_view());
                }
                let ghost base = results.deep_view();
                while j < sn
                    invariant
                        n == self.crates.len(),
                        sn == selected.len(),
                        data.len() == self.crates.len(),
                        forall|k: int| 0 <= k < data@.len() ==> spec_data_bounded(
                            #[trigger] data@[k]@,
                        ),
                        selected.deep_view() == sel,
                        0 <= i < n,
                        0 <= j <= sn,
                        cm == self.crates.deep_view()[i as int],
                        dm == data.deep_view()[i as int],
                        cm.source_url is Some,
                        base == spec_matrix(
                            self.crates.deep_view().take(i as int),
                            data.deep_view().take(i as int),
                            sel,
                        ),
                        results.deep_view() == base + spec_rows(cm, dm, sel).take(j as int),
                    decreases sn - j,
                {
                    proof {
                        assert(selected.deep_view()[j as int] == selected@[j as int]@);
                        assert(self.crates@[i as int]@ == cm);
                        assert(data@[i as int]@ == dm);
                    }
                    let row = self.check_question(&self.crates[i], &selected[j], &data[i]);
                    let ghost results0 = results;
                    results.push(row);
                    proof {
                        lemma_deep_view_push(results0, results, row);
                        assert(spec_rows(cm, dm, sel)[j as int] == seq![spec_check_question(
                            cm,
                            sel[j as int],
                            dm,
                        )]);
                        assert(spec_rows(cm, dm, sel).take(j as int + 1) =~= spec_rows(
                            cm,
                            dm,
                            sel,
                        ).take(j as int).push(spec_rows(cm, dm, sel)[j as int]));
                        assert(results.deep_view() =~= base + spec_rows(cm, dm, sel).take(
                            j as int + 1,
                        ));
                    }
                    j = j + 1;
                }
                proof {
                    assert(spec_rows(cm, dm, sel).take(sn as int) =~= spec_rows(cm, dm, sel));
                    assert(self.crates.deep_view().take(i as int + 1)
                        =~= self.crates.deep_view().take(i as int).push(cm));
                    assert(data.deep_view().take(i as int + 1) =~= data.deep_view().take(
                        i as int,
                    ).push(dm));
                    lemma_matrix_snoc(
                        self.crates.deep_view().take(i as int),
                        data.deep_view().take(i as int),
                        sel,
                        cm,
                        dm,
                    );
                    assert(results.deep_view() =~= spec_matrix(
                        self.crates.deep_view().take(i as int + 1),
                        data.deep_view().take(i as int + 1),
                        sel,
                    ));
                }
            } else {
                proof {
                    assert(cm.source_url is None);
                    assert(self.crates.deep_view().take(i as int + 1)
                        =~= self.crates.deep_view().take(i as int).push(cm));
                    assert(data.deep_view().take(i as int + 1) =~= data.deep_view().take(
                        i as int,
                    ).push(dm));
                    lemma_matrix_snoc(
                        self.crates.deep_view().take(i as int),
                        data.deep_view().take(i as int),
                        sel,
                        cm,
                        dm,
                    );
                    assert(results.deep_view() =~= spec_matrix(
                        self.crates.deep_view().take(i as int + 1),
                        data.deep_view().take(i as int + 1),
                        sel,
                    ));
                }
            }
            i = i + 1;
        }
        proof {
            assert(self.crates.deep_view().take(n as int) =~= self.crates.deep_view());
            assert(data.deep_view().take(n as int) =~= data.deep_view());
        }
        results
    }
}

} // verus!
