//! The report as data for JSON: the sums, the issues by file, and the
//! errors. Turning the data into JSON text is left to the caller.

use super::counts::{count, files_with_issues, issue_total};
use crate::checker::{CheckResult, IssueType, IssueView};
use vstd::prelude::*;

verus! {

/// One issue as the report shows it.
#[derive(Debug, Clone, PartialEq)]
pub struct JsonIssue {
    /// The kind of the issue, in snake case.
    pub issue_type: String,
    pub line: Option<usize>,
    pub message: String,
}

/// The issues of one file.
#[derive(Debug, Clone, PartialEq)]
pub struct JsonFileIssues {
    pub file: String,
    pub issues: Vec<JsonIssue>,
}

/// A file that could not be checked.
#[derive(Debug, Clone, PartialEq)]
pub struct JsonError {
    pub file: String,
    pub error: String,
}

/// The whole report.
#[derive(Debug, Clone, PartialEq)]
pub struct JsonReport {
    pub files_checked: usize,
    pub files_with_issues: usize,
    pub total_issues: u128,
    /// The files that have issues, in order, each with its issues.
    pub issues: Vec<JsonFileIssues>,
    /// The files that could not be checked, in order; absent if there is none.
    pub errors: Option<Vec<JsonError>>,
}

/// The name of a kind of issue in the report.
pub open spec fn kind_name(kind: IssueType) -> Seq<char> {
    match kind {
        IssueType::MissingNewline => "missing_newline"@,
        IssueType::MultipleNewlines => "multiple_newlines"@,
        IssueType::TrailingSpace => "trailing_space"@,
    }
}

/// Whether a reported issue shows the issue.
pub open spec fn shows_issue(shown: JsonIssue, issue: IssueView) -> bool {
    &&& shown.issue_type@ == kind_name(issue.issue_type)
    &&& shown.line == issue.line
    &&& shown.message@ == issue.message
}

/// Whether a reported file shows the result: its path, and its issues one
/// by one.
pub open spec fn shows_file(shown: JsonFileIssues, result: CheckResult) -> bool {
    &&& shown.file@ == result.file_path@
    &&& shown.issues@.len() == result.issues@.len()
    &&& forall|k: int|
        0 <= k < result.issues@.len() ==> shows_issue(
            #[trigger] shown.issues@[k],
            result.issues@[k]@,
        )
}

/// The positions of the results that have issues, ascending.
pub open spec fn with_issues(results: Seq<CheckResult>) -> Seq<int>
    decreases results.len(),
{
    if results.len() == 0 {
        Seq::empty()
    } else if results.last().issues@.len() > 0 {
        with_issues(results.drop_last()).push(results.len() - 1)
    } else {
        with_issues(results.drop_last())
    }
}

/// The positions of the results that have an error, ascending.
pub open spec fn with_error(results: Seq<CheckResult>) -> Seq<int>
    decreases results.len(),
{
    if results.len() == 0 {
        Seq::empty()
    } else if results.last().error is Some {
        with_error(results.drop_last()).push(results.len() - 1)
    } else {
        with_error(results.drop_last())
    }
}

/// Whether the reported files are the results with issues, in order.
pub open spec fn shows_files(shown: Seq<JsonFileIssues>, results: Seq<CheckResult>) -> bool {
    &&& shown.len() == with_issues(results).len()
    &&& forall|j: int|
        0 <= j < shown.len() ==> shows_file(#[trigger] shown[j], results[with_issues(results)[j]])
}

/// Whether the reported errors are the results with an error, in order.
pub open spec fn shows_errors(shown: Seq<JsonError>, results: Seq<CheckResult>) -> bool {
    &&& shown.len() == with_error(results).len()
    &&& forall|j: int|
        0 <= j < shown.len() ==> (#[trigger] shown[j]).file@ == results[with_error(
            results,
        )[j]].file_path@ && shown[j].error@ == results[with_error(results)[j]].error->0@
}

/// The positions that `with_issues` and `with_error` give are positions
/// of the results.
pub proof fn lemma_positions(results: Seq<CheckResult>)
    ensures
        forall|j: int|
            0 <= j < with_issues(results).len() ==> 0 <= #[trigger] with_issues(results)[j]
                < results.len(),
        forall|j: int|
            0 <= j < with_error(results).len() ==> 0 <= #[trigger] with_error(results)[j]
                < results.len(),
    decreases results.len(),
{
    if results.len() > 0 {
        let init = results.drop_last();
        lemma_positions(init);
        assert forall|j: int| 0 <= j < with_issues(results).len() implies 0
            <= #[trigger] with_issues(results)[j] < results.len() by {
            if j < with_issues(init).len() {
                assert(with_issues(results)[j] == with_issues(init)[j]);
            }
        }
        assert forall|j: int| 0 <= j < with_error(results).len() implies 0 <= #[trigger] with_error(
            results,
        )[j] < results.len() by {
            if j < with_error(init).len() {
                assert(with_error(results)[j] == with_error(init)[j]);
            }
        }
    }
}

/// Reports as JSON, on several lines or on one.
#[derive(Debug, Clone, Copy)]
pub struct JsonReporter {
    /// Whether the JSON is spread over lines and indented.
    pub pretty: bool,
}

impl JsonReporter {
    /// A reporter that writes indented JSON.
    pub fn new() -> (reporter: Self)
        ensures
            reporter.pretty,
    {
        JsonReporter { pretty: true }
    }

    /// A reporter that writes JSON on one line.
    pub fn compact() -> (reporter: Self)
        ensures
            !reporter.pretty,
    {
        JsonReporter { pretty: false }
    }

    /// The name of a kind of issue in the report.
    pub fn issue_type_name(kind: IssueType) -> (name: String)
        ensures
            name@ == kind_name(kind),
    {
        match kind {
            IssueType::MissingNewline => "missing_newline".to_owned(),
            IssueType::MultipleNewlines => "multiple_newlines".to_owned(),
            IssueType::TrailingSpace => "trailing_space".to_owned(),
        }
    }

    /// The issues of one result as the report shows them.
    pub fn file_issues(result: &CheckResult) -> (shown: JsonFileIssues)
        ensures
            shows_file(shown, *result),
    {
        let mut issues: Vec<JsonIssue> = Vec::new();
        let mut k: usize = 0;
        while k < result.issues.len()
            invariant
                0 <= k <= result.issues@.len(),
                issues@.len() == k,
                forall|j: int|
                    0 <= j < k ==> shows_issue(#[trigger] issues@[j], result.issues@[j]@),
            decreases result.issues@.len() - k,
        {
            let issue = &result.issues[k];
            issues.push(
                JsonIssue {
                    issue_type: JsonReporter::issue_type_name(issue.issue_type),
                    line: issue.line,
                    message: issue.message.clone(),
                },
            );
            k = k + 1;
        }
        JsonFileIssues { file: result.file_path.clone(), issues }
    }

    /// The data of the report: how many files were checked, how many of
    /// them have issues, how many issues there are; the files with issues,
    /// each with its issues; and the files with an error, if there are any.
    pub fn summarize(&self, results: &[CheckResult]) -> (report: JsonReport)
        ensures
            report.files_checked == results@.len(),
            report.files_with_issues == files_with_issues(results@),
            report.total_issues == issue_total(results@),
            shows_files(report.issues@, results@),
            report.errors is Some <==> with_error(results@).len() > 0,
            report.errors is Some ==> shows_errors(report.errors->0@, results@),
    {
        let counts = count(results);
        let mut issues: Vec<JsonFileIssues> = Vec::new();
        let mut errors: Vec<JsonError> = Vec::new();
        let mut i: usize = 0;
        assert(results@.take(0) =~= Seq::<CheckResult>::empty());
        while i < results.len()
            invariant
                0 <= i <= results@.len(),
                shows_files(issues@, results@.take(i as int)),
                shows_errors(errors@, results@.take(i as int)),
            decreases results@.len() - i,
        {
            let ghost done = results@.take(i as int);
            let ghost next = results@.take(i as int + 1);
            proof {
                assert(next.drop_last() =~= done);
                assert(next.last() == results@[i as int]);
                lemma_positions(done);
                assert forall|j: int| 0 <= j < with_issues(done).len() implies next[with_issues(
                    done,
                )[j]] == done[with_issues(done)[j]] by {}
                assert forall|j: int| 0 <= j < with_error(done).len() implies next[with_error(
                    done,
                )[j]] == done[with_error(done)[j]] by {}
            }
            let result = &results[i];
            match &result.error {
                Some(error) => {
                    errors.push(JsonError { file: result.file_path.clone(), error: error.clone() });
                },
                None => {},
            }
            if result.issues.len() > 0 {
                issues.push(JsonReporter::file_issues(result));
            }
            i = i + 1;
        }
        assert(results@.take(results@.len() as int) =~= results@);
        let listed = if errors.len() > 0 {
            Some(errors)
        } else {
            None
        };
        JsonReport {
            files_checked: counts.files_checked,
            files_with_issues: counts.files_with_issues,
            total_issues: counts.total_issues,
            issues,
            errors: listed,
        }
    }
}

impl Default for JsonReporter {
    fn default() -> (reporter: Self)
        ensures
            reporter.pretty,
    {
        JsonReporter { pretty: true }
    }
}

} // verus!
