//! The criterion catalog: the fixed, ordered list of twelve maintenance
//! questions, each bound to one evaluator.

use vstd::prelude::*;
use crate::text::str_eq;

verus! {

/// The evaluator a catalog entry is bound to.
#[derive(Debug, Clone, Copy, PartialEq, Eq, Structural)]
pub enum CheckNames {
    ProductionReadiness,
    Documentation,
    Changelog,
    Tests,
    TestsRunAgainstLatestLanguageVersion,
    TestsRunAgainstLatestIntegrationVersion,
    BugReportResponse,
    ContinuousIntegrationConfiguration,
    ContinuousIntegrationPasses,
    Usage,
    LatestCommits,
    LatestRelease,
}

/// One catalog entry: a stable number, the question and explanation texts,
/// and the evaluator it is bound to.
#[derive(Debug)]
pub struct Question {
    pub number: String,
    pub question: String,
    pub explanation: String,
    pub name: CheckNames,
}

/// The mathematical image of a catalog entry.
pub struct QuestionModel {
    pub number: Seq<char>,
    pub question: Seq<char>,
    pub explanation: Seq<char>,
    pub name: CheckNames,
}

impl View for Question {
    type V = QuestionModel;

    open spec fn view(&self) -> QuestionModel {
        QuestionModel {
            number: self.number@,
            question: self.question@,
            explanation: self.explanation@,
            name: self.name,
        }
    }
}

impl DeepView for Question {
    type V = QuestionModel;

    open spec fn deep_view(&self) -> QuestionModel {
        self.view()
    }
}

/// The fixed catalog, in display order.
pub open spec fn spec_catalog() -> Seq<QuestionModel> {
    seq![
        QuestionModel {
            number: "1"@,
            question: "Is it production ready?"@,
            explanation: "The crate has a mature release history"@,
            name: CheckNames::ProductionReadiness,
        },
        QuestionModel {
            number: "2"@,
            question: "Is there sufficient documentation?"@,
            explanation: "The crate has a README or a documented doc.rs page"@,
            name: CheckNames::Documentation,
        },
        QuestionModel {
            number: "3"@,
            question: "Is there a changelog?"@,
            explanation: "The crate keeps a CHANGELOG.md or release notes"@,
            name: CheckNames::Changelog,
        },
        QuestionModel {
            number: "4"@,
            question: "Are there sufficient tests?"@,
            explanation: "The crate source keeps a test directory"@,
            name: CheckNames::Tests,
        },
        QuestionModel {
            number: "5"@,
            question: "Are the tests running with the latest language version?"@,
            explanation: "The crate tests run against the latest language release"@,
            name: CheckNames::TestsRunAgainstLatestLanguageVersion,
        },
        QuestionModel {
            number: "6"@,
            question: "Are the tests running with the latest integration version?"@,
            explanation: "The crate tests run against the latest integration release"@,
            name: CheckNames::TestsRunAgainstLatestIntegrationVersion,
        },
        QuestionModel {
            number: "7"@,
            question: "Is someone responding to bug reports?"@,
            explanation: "Open bugs get responses from the maintainer(s)"@,
            name: CheckNames::BugReportResponse,
        },
        QuestionModel {
            number: "8"@,
            question: "Is there a Continuous Integration (CI) configuration?"@,
            explanation: "The crate source keeps CI workflows"@,
            name: CheckNames::ContinuousIntegrationConfiguration,
        },
        QuestionModel {
            number: "9"@,
            question: "Is the CI passing?"@,
            explanation: "The CI workflows run without failures"@,
            name: CheckNames::ContinuousIntegrationPasses,
        },
        QuestionModel {
            number: "10"@,
            question: "Does it seem relatively well used?"@,
            explanation: "The crate source shows recent activity"@,
            name: CheckNames::Usage,
        },
        QuestionModel {
            number: "11"@,
            question: "Has there been a commit in the last year?"@,
            explanation: "The crate source shows how old the last commit is"@,
            name: CheckNames::LatestCommits,
        },
        QuestionModel {
            number: "12"@,
            question: "Has there been a release in the last year?"@,
            explanation: "The crate source shows how old the last release is"@,
            name: CheckNames::LatestRelease,
        },
    ]
}

/// The catalog numbers, in display order.
pub open spec fn spec_question_numbers() -> Seq<Seq<char>> {
    seq!["1"@, "2"@, "3"@, "4"@, "5"@, "6"@, "7"@, "8"@, "9"@, "10"@, "11"@, "12"@]
}

/// Every catalog number stands in the number list, at the same place.
pub proof fn lemma_question_numbers_match_catalog()
    ensures
        spec_question_numbers().len() == spec_catalog().len(),
        forall|i: int| 0 <= i < spec_catalog().len() ==> spec_question_numbers()[i]
            == #[trigger] spec_catalog()[i].number,
{
    assert forall|i: int| 0 <= i < spec_catalog().len() implies spec_question_numbers()[i]
        == #[trigger] spec_catalog()[i].number by {
        if i == 0 {
        } else if i == 1 {
        } else if i == 2 {
        } else if i == 3 {
        } else if i == 4 {
        } else if i == 5 {
        } else if i == 6 {
        } else if i == 7 {
        } else if i == 8 {
        } else if i == 9 {
        } else if i == 10 {
        } else {
        }
    }
}

impl Question {
    /// The entry as the three display columns: number, question, explanation.
    pub fn to_vec(&self) -> (r: Vec<String>)
        ensures
            r.deep_view() == seq![self.number@, self.question@, self.explanation@],
    {
        let mut v: Vec<String> = Vec::new();
        v.push(self.number.clone());
        v.push(self.question.clone());
        v.push(self.explanation.clone());
        proof {
            assert(v.deep_view() =~= seq![self.number@, self.question@, self.explanation@]);
        }
        v
    }
}

/// Holder of the whole catalog.
#[derive(Debug)]
pub struct DeserializableQuestions {
    pub questions: Vec<Question>,
}

/// Access to the catalog.
#[derive(Debug)]
pub struct Questions {
    pub verbose: bool,
}

fn make_question(number: &str, question: &str, explanation: &str, name: CheckNames) -> (r:
    Question)
    ensures
        r@ == (QuestionModel {
            number: number@,
            question: question@,
            explanation: explanation@,
            name: name,
        }),
{
    Question {
        number: number.to_owned(),
        question: question.to_owned(),
        explanation: explanation.to_owned(),
        name,
    }
}

impl Questions {
    pub fn new(verbose: bool) -> (r: Self)
        ensures
            r.verbose == verbose,
    {
        Questions { verbose }
    }

    /// The numbers of the available questions, as strings.
    pub fn question_numbers() -> (r: Vec<String>)
        ensures
            r.deep_view() == spec_question_numbers(),
    {
        let mut v: Vec<String> = Vec::new();
        v.push(String::from_str("1"));
        v.push(String::from_str("2"));
        v.push(String::from_str("3"));
        v.push(String::from_str("4"));
        v.push(String::from_str("5"));
        v.push(String::from_str("6"));
        v.push(String::from_str("7"));
        v.push(String::from_str("8"));
        v.push(String::from_str("9"));
        v.push(String::from_str("10"));
        v.push(String::from_str("11"));
        v.push(String::from_str("12"));
        proof {
            assert(v.deep_view() =~= spec_question_numbers());
        }
        v
    }

    /// The whole catalog, in display order.
    pub fn list(&self) -> (r: DeserializableQuestions)
        ensures
            r.questions.deep_view() == spec_catalog(),
    {
        let mut v: Vec<Question> = Vec::new();
        v.push(
            make_question(
                "1",
                "Is it production ready?",
                "The crate has a mature release history",
                CheckNames::ProductionReadiness,
            ),
        );
        v.push(
            make_question(
                "2",
                "Is there sufficient documentation?",
                "The crate has a README or a documented doc.rs page",
                CheckNames::Documentation,
            ),
        );
        v.push(
            make_question(
                "3",
                "Is there a changelog?",
                "The crate keeps a CHANGELOG.md or release notes",
                CheckNames::Changelog,
            ),
        );
        v.push(
            make_question(
                "4",
                "Are there sufficient tests?",
                "The crate source keeps a test directory",
                CheckNames::Tests,
            ),
        );
        v.push(
            make_question(
                "5",
                "Are the tests running with the latest language version?",
                "The crate tests run against the latest language release",
                CheckNames::TestsRunAgainstLatestLanguageVersion,
            ),
        );
        v.push(
            make_question(
                "6",
                "Are the tests running with the latest integration version?",
                "The crate tests run against the latest integration release",
                CheckNames::TestsRunAgainstLatestIntegrationVersion,
            ),
        );
        v.push(
            make_question(
                "7",
                "Is someone responding to bug reports?",
                "Open bugs get responses from the maintainer(s)",
                CheckNames::BugReportResponse,
            ),
        );
        v.push(
            make_question(
                "8",
                "Is there a Continuous Integration (CI) configuration?",
                "The crate source keeps CI workflows",
                CheckNames::ContinuousIntegrationConfiguration,
            ),
        );
        v.push(
            make_question(
                "9",
                "Is the CI passing?",
                "The CI workflows run without failures",
                CheckNames::ContinuousIntegrationPasses,
            ),
        );
        v.push(
            make_question(
                "10",
                "Does it seem relatively well used?",
                "The crate source shows recent activity",
                CheckNames::Usage,
            ),
        );
        v.push(
            make_question(
                "11",
                "Has there been a commit in the last year?",
                "The crate source shows how old the last commit is",
                CheckNames::LatestCommits,
            ),
        );
        v.push(
            make_question(
                "12",
                "Has there been a release in the last year?",
                "The crate source shows how old the last release is",
                CheckNames::LatestRelease,
            ),
        );
        proof {
            assert(v.deep_view() =~= spec_catalog());
        }
        DeserializableQuestions { questions: v }
    }

    /// The catalog entries whose number equals `question_number`.
    pub fn describe(&self, question_number: String) -> (r: Vec<Question>)
        ensures
            r.deep_view() == spec_catalog().filter(
                |q: QuestionModel| q.number == question_number@,
            ),
    {
        let catalog = self.list().questions;
        let mut v: Vec<Question> = Vec::new();
        let mut i: usize = 0;
        let n = catalog.len();
        proof {
            reveal(Seq::filter);
            assert(catalog.deep_view().take(0) =~= Seq::<QuestionModel>::empty());
        }
        while i < n
            invariant
                n == catalog.len(),
                0 <= i <= n,
                catalog.deep_view() == spec_catalog(),
                v.deep_view() == catalog.deep_view().take(i as int).filter(
                    |q: QuestionModel| q.number == question_number@,
                ),
            decreases n - i,
        {
            let ghost pred = |q: QuestionModel| q.number == question_number@;
            let keep = str_eq(catalog[i].number.as_str(), question_number.as_str());
            proof {
                reveal(Seq::filter);
                let prefix = catalog.deep_view().take(i as int);
                let next = catalog.deep_view().take(i as int + 1);
                assert(next.drop_last() =~= prefix);
                assert(next.last() == catalog.deep_view()[i as int]);
            }
            if keep {
                let q = Question {
                    number: catalog[i].number.clone(),
                    question: catalog[i].question.clone(),
                    explanation: catalog[i].explanation.clone(),
                    name: catalog[i].name,
                };
                proof {
                    assert(q@ == catalog.deep_view()[i as int]);
                }
                v.push(q);
                proof {
                    assert(v.deep_view() =~= catalog.deep_view().take(i as int + 1).filter(pred));
                }
            } else {
                proof {
                    assert(v.deep_view() =~= catalog.deep_view().take(i as int + 1).filter(pred));
                }
            }
            i = i + 1;
        }
        proof {
            assert(catalog.deep_view().take(n as int) =~= catalog.deep_view());
        }
        v
    }
}

} // verus!
