//! Checking the content of one file: the issue types, the two rules, and the
//! two ways of applying them (whole text in memory, or line by line).

pub mod checker_core;
pub mod file_checker;
pub mod io_trait;
pub mod laws;
pub mod memory;
pub mod rules;
pub mod stream;
pub mod traits;

pub use self::checker_core::CheckerCore;
pub use self::file_checker::FileChecker;
pub use self::io_trait::{FileMetadata, FileReader, LineEvent, LineSource};
pub use self::memory::MemoryFiles;
pub use self::stream::StreamScan;
pub use self::traits::{ContentChecker, LineChecker};

use self::rules::{blank_ended, ending_of, lines_of, Ending};
use crate::config::{CheckConfig, Config};
use vstd::prelude::*;

verus! {

/// The kinds of whitespace defect.
#[derive(Debug, Clone, Copy, PartialEq, Eq, Structural)]
pub enum IssueType {
    /// The file is not empty and does not end in a line feed.
    MissingNewline,
    /// The file ends in two or more line feeds.
    MultipleNewlines,
    /// A line ends in spaces or tabs.
    TrailingSpace,
}

/// One defect found in a file.
#[derive(Debug, Clone, PartialEq)]
pub struct Issue {
    pub issue_type: IssueType,
    /// The 1-based line, for `TrailingSpace` only.
    pub line: Option<usize>,
    pub message: String,
}

/// What checking one file gave: its issues in order, or the error that kept
/// the file from being read. A result with an error has no issues.
#[derive(Debug, Clone, PartialEq)]
pub struct CheckResult {
    pub file_path: String,
    pub issues: Vec<Issue>,
    pub error: Option<String>,
}

/// An issue as a mathematical value: the message as a sequence of characters.
pub struct IssueView {
    pub issue_type: IssueType,
    pub line: Option<usize>,
    pub message: Seq<char>,
}

impl View for Issue {
    type V = IssueView;

    open spec fn view(&self) -> IssueView {
        IssueView { issue_type: self.issue_type, line: self.line, message: self.message@ }
    }
}

/// The views of a list of issues, in the same order.
pub open spec fn issue_views(issues: Seq<Issue>) -> Seq<IssueView> {
    Seq::new(issues.len(), |i: int| issues[i]@)
}

/// The result of checking one file as a mathematical value.
pub struct ResultView {
    pub file_path: Seq<char>,
    pub issues: Seq<IssueView>,
    pub error: Option<Seq<char>>,
}

impl View for CheckResult {
    type V = ResultView;

    open spec fn view(&self) -> ResultView {
        ResultView {
            file_path: self.file_path@,
            issues: issue_views(self.issues@),
            error: match self.error {
                Some(message) => Some(message@),
                None => None,
            },
        }
    }
}

/// The fixed message of each kind of issue.
pub open spec fn message_of(t: IssueType) -> Seq<char> {
    match t {
        IssueType::MissingNewline => "Missing newline at end of file"@,
        IssueType::MultipleNewlines => "Multiple newlines at end of file"@,
        IssueType::TrailingSpace => "Trailing spaces found"@,
    }
}

/// The issue reported for trailing whitespace on line `n`.
pub open spec fn trailing_issue(n: nat) -> IssueView {
    IssueView {
        issue_type: IssueType::TrailingSpace,
        line: Some(n as usize),
        message: message_of(IssueType::TrailingSpace),
    }
}

/// The issue, if any, reported for the end of a text. It carries no line.
pub open spec fn ending_issue(e: Ending) -> Option<IssueView> {
    match e {
        Ending::Proper => None,
        Ending::Missing => Some(
            IssueView {
                issue_type: IssueType::MissingNewline,
                line: None,
                message: message_of(IssueType::MissingNewline),
            },
        ),
        Ending::Repeated => Some(
            IssueView {
                issue_type: IssueType::MultipleNewlines,
                line: None,
                message: message_of(IssueType::MultipleNewlines),
            },
        ),
    }
}

/// One trailing-space issue for each line number of `numbers`, in order.
pub open spec fn trailing_issues(numbers: Seq<nat>) -> Seq<IssueView> {
    Seq::new(numbers.len(), |i: int| trailing_issue(numbers[i]))
}

/// What the trailing-whitespace rule reports for a text when it is on.
pub open spec fn trailing_part(on: bool, s: Seq<char>) -> Seq<IssueView> {
    if on {
        trailing_issues(blank_ended(lines_of(s)))
    } else {
        Seq::empty()
    }
}

/// What the newline-ending rule reports for an ending when it is on.
pub open spec fn ending_part(on: bool, e: Ending) -> Seq<IssueView> {
    if on && ending_issue(e) is Some {
        seq![ending_issue(e)->0]
    } else {
        Seq::empty()
    }
}

/// Everything reported for a text: the trailing-space issues by ascending
/// line, then the newline issue if there is one. A rule that is switched off
/// contributes nothing.
pub open spec fn content_issues(checks: CheckConfig, s: Seq<char>) -> Seq<IssueView> {
    trailing_part(checks.trailing_spaces, s) + ending_part(checks.newline_ending, ending_of(s))
}

/// Whether the text has a missing or repeated final newline, under the
/// default configuration.
pub fn check_newline_ending(content: &str) -> (found: Option<Issue>)
    ensures
        found is Some <==> ending_issue(ending_of(content@)) is Some,
        found is Some ==> found->0@ == ending_issue(ending_of(content@))->0,
{
    let checker = CheckerCore::new(Config::default());
    checker.check_newline_ending(content)
}

/// The trailing-space issues of a text, under the default configuration.
pub fn check_trailing_spaces(content: &str) -> (issues: Vec<Issue>)
    ensures
        issue_views(issues@) == trailing_issues(blank_ended(lines_of(content@))),
{
    let checker = CheckerCore::new(Config::default());
    checker.check_content_trailing_whitespace(content)
}

} // verus!
