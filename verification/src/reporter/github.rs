//! The report as annotations for GitHub Actions: one `::error` line for
//! each error and each issue.

use super::numbers::{decimal, push_decimal};
use super::traits::{emit_lines, grown_by, kept_word, line_writes, Output, ReporterWithOutput};
use crate::checker::{CheckResult, Issue, IssueView};
use crate::text::{lemma_texts_push, texts};
use vstd::prelude::*;
use vstd::string::StringExecFns;

verus! {

/// The annotation of an issue: with the line where the issue names one.
pub open spec fn issue_annotation(file: Seq<char>, issue: IssueView) -> Seq<char> {
    match issue.line {
        Some(line) => "::error file="@ + file + ",line="@ + decimal(line as nat) + "::"@
            + issue.message,
        None => "::error file="@ + file + "::"@ + issue.message,
    }
}

/// The annotation of a file that could not be checked.
pub open spec fn error_annotation(file: Seq<char>, error: Seq<char>) -> Seq<char> {
    "::error file="@ + file + "::"@ + error
}

/// The annotations of the first `count` issues of a file, in order.
pub open spec fn issue_annotations(file: Seq<char>, issues: Seq<Issue>, count: int) -> Seq<
    Seq<char>,
>
    decreases count,
{
    if count <= 0 {
        Seq::empty()
    } else {
        issue_annotations(file, issues, count - 1).push(issue_annotation(file, issues[count - 1]@))
    }
}

/// The annotations of one result: its error first, if it has one, then its
/// issues in order.
pub open spec fn result_annotations(result: CheckResult) -> Seq<Seq<char>> {
    let issues = issue_annotations(result.file_path@, result.issues@, result.issues@.len() as int);
    match result.error {
        Some(error) => seq![error_annotation(result.file_path@, error@)] + issues,
        None => issues,
    }
}

/// The annotations of all results, in order.
pub open spec fn annotations(results: Seq<CheckResult>) -> Seq<Seq<char>>
    decreases results.len(),
{
    if results.len() == 0 {
        Seq::empty()
    } else {
        annotations(results.drop_last()) + result_annotations(results.last())
    }
}

/// Reports in the format of GitHub Actions annotations.
#[derive(Debug, Clone, Copy)]
pub struct GitHubReporter;

impl GitHubReporter {
    /// A reporter for GitHub Actions.
    pub fn new() -> (reporter: Self) {
        GitHubReporter
    }

    /// The lines of the report: for each result its error, if any, then
    /// its issues, each as one `::error` annotation. A result without error
    /// and issues gives no line.
    pub fn lines(&self, results: &[CheckResult]) -> (lines: Vec<String>)
        ensures
            texts(lines@) == annotations(results@),
    {
        let mut lines: Vec<String> = Vec::new();
        let mut i: usize = 0;
        assert(results@.take(0) =~= Seq::<CheckResult>::empty());
        assert(texts(lines@) =~= Seq::<Seq<char>>::empty());
        while i < results.len()
            invariant
                0 <= i <= results@.len(),
                texts(lines@) == annotations(results@.take(i as int)),
            decreases results@.len() - i,
        {
            proof {
                assert(results@.take(i as int + 1).drop_last() =~= results@.take(i as int));
                assert(results@.take(i as int + 1).last() == results@[i as int]);
            }
            let result = &results[i];
            let ghost before = texts(lines@);
            let file = result.file_path.as_str();
            let ghost mut own: Seq<Seq<char>> = Seq::empty();
            match &result.error {
                Some(error) => {
                    let mut line = "::error file=".to_owned();
                    line.append(file);
                    line.append("::");
                    line.append(error.as_str());
                    proof {
                        lemma_texts_push(lines@, line);
                        own = seq![error_annotation(file@, error@)];
                    }
                    lines.push(line);
                },
                None => {},
            }
            assert(texts(lines@) =~= before + own);
            let mut k: usize = 0;
            while k < result.issues.len()
                invariant
                    0 <= k <= result.issues@.len(),
                    file@ == result.file_path@,
                    texts(lines@) == before + own + issue_annotations(
                        file@,
                        result.issues@,
                        k as int,
                    ),
                decreases result.issues@.len() - k,
            {
                let issue = &result.issues[k];
                let mut line = "::error file=".to_owned();
                line.append(file);
                match issue.line {
                    Some(number) => {
                        line.append(",line=");
                        push_decimal(&mut line, number as u128);
                    },
                    None => {},
                }
                line.append("::");
                line.append(issue.message.as_str());
                proof {
                    assert(line@ =~= issue_annotation(file@, issue@));
                    lemma_texts_push(lines@, line);
                    assert((before + own + issue_annotations(file@, result.issues@, k as int)).push(
                        line@,
                    ) =~= before + own + issue_annotations(file@, result.issues@, k as int + 1));
                }
                lines.push(line);
                k = k + 1;
            }
            assert(before + own + issue_annotations(
                file@,
                result.issues@,
                result.issues@.len() as int,
            ) =~= before + result_annotations(*result));
            i = i + 1;
        }
        assert(results@.take(results@.len() as int) =~= results@);
        lines
    }
}

impl Default for GitHubReporter {
    fn default() -> (reporter: Self) {
        GitHubReporter
    }
}

impl ReporterWithOutput for GitHubReporter {
    /// Writes the lines of `lines`, each as a line of its own, and flushes.
    /// The first error of the output ends the writing and is handed back.
    /// If all goes well, an output that keeps account has got exactly the
    /// annotations of the results, each followed by a line feed.
    fn report_to(&self, results: &[CheckResult], output: &mut dyn Output) -> (done: Result<
        (),
        std::io::Error,
    >)
        ensures
            grown_by(
                old(output).written(),
                final(output).written(),
                done is Ok,
                line_writes(annotations(results@)),
            ),
            kept_word(old(output).reliable(), final(output).reliable(), done is Ok),
    {
        let lines = self.lines(results);
        emit_lines(&lines, output)
    }
}

} // verus!
