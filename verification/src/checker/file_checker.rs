//! Checking one file through a `FileReader`: small files as a whole, large
//! ones line by line.

use super::checker_core::{ending_to_issue, CheckerCore};
use super::io_trait::{FileReader, LineSource, LineStep};
use super::laws::{is_ending, law_stream_issues_orderly, orderly};
use super::stream::{
    classify_tail, ending_of_bytes, stream_issues, tail_view, StreamScan, TAIL_LEN,
};
use super::{
    content_issues, ending_issue, issue_views, CheckResult, Issue, IssueView, ResultView,
};
use crate::config::{CheckConfig, Config};
use vstd::prelude::*;
use vstd::string::StringExecFns;

verus! {

/// Files longer than this many bytes (10 MiB) are read line by line.
pub const STREAMING_THRESHOLD: u64 = 10 * 1024 * 1024;

/// The two ways of reading a file.
#[derive(Debug, Clone, Copy, PartialEq, Eq, Structural)]
pub enum CheckMode {
    /// The whole file is read as one text.
    InMemory,
    /// The file is read line by line, and its end a second time.
    Streaming,
}

/// The way a file of `len` bytes is read.
pub open spec fn mode_for(len: u64) -> CheckMode {
    if len > STREAMING_THRESHOLD {
        CheckMode::Streaming
    } else {
        CheckMode::InMemory
    }
}

/// Chooses the way a file of `len` bytes is read: line by line above the
/// threshold, as a whole up to it.
pub fn select_mode(len: u64) -> (mode: CheckMode)
    ensures
        mode == mode_for(len),
{
    if len > STREAMING_THRESHOLD {
        CheckMode::Streaming
    } else {
        CheckMode::InMemory
    }
}

/// The text of a per-file error: the path, a colon and a space, the cause.
pub open spec fn failure_text(path: Seq<char>, cause: Seq<char>) -> Seq<char> {
    path + ": "@ + cause
}

/// The result for a file that could not be read: the error, and no issues.
pub fn failed(path: &str, cause: &str) -> (result: CheckResult)
    ensures
        result.file_path@ == path@,
        result.issues@.len() == 0,
        result.error is Some,
        result.error->0@ == failure_text(path@, cause@),
        names_cause(path@, result.error->0@),
        orderly(issue_views(result.issues@)),
        result@ == failed_view(path@, cause@),
{
    let mut text = path.to_owned();
    text.append(": ");
    text.append(cause);
    assert(text@ == failure_text(path@, cause@));
    let result = CheckResult { file_path: path.to_owned(), issues: Vec::new(), error: Some(text) };
    assert(issue_views(result.issues@) =~= Seq::<IssueView>::empty());
    result
}

/// The result for a file that was read: its issues, and no error.
pub fn checked(path: &str, issues: Vec<Issue>) -> (result: CheckResult)
    ensures
        result.file_path@ == path@,
        result.issues == issues,
        result.error is None,
        result@ == checked_view(path@, issue_views(issues@)),
{
    CheckResult { file_path: path.to_owned(), issues, error: None }
}

/// The result of the in-memory mode, from what reading the file gave: the
/// issues of the text, or the error.
pub fn in_memory_outcome(
    checker: &CheckerCore,
    path: &str,
    read: Result<String, String>,
) -> (result: CheckResult)
    ensures
        result.file_path@ == path@,
        read is Ok ==> result.error is None && issue_views(result.issues@) == content_issues(
            checker.spec_config().checks,
            read->Ok_0@,
        ),
        orderly(issue_views(result.issues@)),
        read is Err ==> result.issues@.len() == 0 && result.error is Some && result.error->0@
            == failure_text(path@, read->Err_0@),
        result.error is Some ==> names_cause(path@, result.error->0@),
        result@ == in_memory_view(checker.spec_config().checks, path@, text_view(read)),
{
    match read {
        Ok(text) => checked(path, checker.check_content(text.as_str())),
        Err(cause) => failed(path, cause.as_str()),
    }
}

/// The result for a file that could not be read, as a value.
pub open spec fn failed_view(path: Seq<char>, cause: Seq<char>) -> ResultView {
    ResultView { file_path: path, issues: Seq::empty(), error: Some(failure_text(path, cause)) }
}

/// The result for a file that was read, as a value.
pub open spec fn checked_view(path: Seq<char>, issues: Seq<IssueView>) -> ResultView {
    ResultView { file_path: path, issues, error: None }
}

/// What a read of text gave, as a value.
pub open spec fn text_view(read: Result<String, String>) -> Result<Seq<char>, Seq<char>> {
    match read {
        Ok(text) => Ok(text@),
        Err(message) => Err(message@),
    }
}

/// The result of the in-memory mode, from what reading the file gave.
pub open spec fn in_memory_view(
    checks: CheckConfig,
    path: Seq<char>,
    read: Result<Seq<char>, Seq<char>>,
) -> ResultView {
    match read {
        Ok(text) => checked_view(path, content_issues(checks, text)),
        Err(cause) => failed_view(path, cause),
    }
}

/// The lines at the head of the steps: those before the first failed read.
pub open spec fn leading_lines(steps: Seq<LineStep>) -> Seq<Seq<char>>
    decreases steps.len(),
{
    if steps.len() == 0 || steps[0] is Failed {
        Seq::empty()
    } else {
        seq![steps[0]->Line_0] + leading_lines(steps.drop_first())
    }
}

/// The lines that are read of a source that makes the steps: those before
/// the first failed read, and no more than the line counter can count.
pub open spec fn lines_read(steps: Seq<LineStep>) -> Seq<Seq<char>> {
    let lead = leading_lines(steps);
    if lead.len() <= usize::MAX {
        lead
    } else {
        lead.take(usize::MAX as int)
    }
}

/// The result of the in-memory mode for a reader that knows its answer:
/// the issues of the text it serves, or its error.
pub open spec fn foreseen_in_memory<R: FileReader>(
    reader: R,
    checks: CheckConfig,
    path: Seq<char>,
) -> Option<ResultView> {
    match reader.text_answer(path) {
        Some(read) => Some(in_memory_view(checks, path, read)),
        None => None,
    }
}

/// The result of the streaming mode for a reader that knows its answers.
/// A file that cannot be opened gives the error. Else the lines up to the
/// first failed read are judged, and the failed read is no error. The end
/// of the file is read, and judged if the read succeeds, only where the
/// newline rule is on and a line was read.
pub open spec fn foreseen_streaming<R: FileReader>(
    reader: R,
    checks: CheckConfig,
    path: Seq<char>,
) -> Option<ResultView> {
    match reader.lines_answer(path) {
        None => None,
        Some(Err(cause)) => Some(failed_view(path, cause)),
        Some(Ok(steps)) => {
            let lines = lines_read(steps);
            if checks.newline_ending && lines.len() > 0 {
                match reader.tail_answer(path, TAIL_LEN as nat) {
                    None => None,
                    Some(answer) => Some(
                        checked_view(path, stream_issues(checks, lines, kept_tail(answer))),
                    ),
                }
            } else {
                Some(checked_view(path, stream_issues(checks, lines, None)))
            }
        },
    }
}

/// The result of checking a file for a reader that knows its answers. If
/// the metadata cannot be had, the result is that error. Else the reported
/// length chooses the way of reading.
pub open spec fn foreseen<R: FileReader>(
    reader: R,
    checks: CheckConfig,
    path: Seq<char>,
) -> Option<ResultView> {
    match reader.metadata_answer(path) {
        None => None,
        Some(Err(cause)) => Some(failed_view(path, cause)),
        Some(Ok(metadata)) => match mode_for(metadata.len) {
            CheckMode::InMemory => foreseen_in_memory(reader, checks, path),
            CheckMode::Streaming => foreseen_streaming(reader, checks, path),
        },
    }
}

/// Where the reading of a source stands: the lines taken are the first
/// steps, which were all lines; while it goes on, the rest of the steps is
/// what is coming; once it has ended, the steps are used up or the next
/// one is a failed read.
pub open spec fn reading(
    steps: Seq<LineStep>,
    lines: Seq<Seq<char>>,
    coming: Option<Seq<LineStep>>,
    more: bool,
) -> bool {
    &&& lines.len() <= steps.len()
    &&& forall|j: int|
        0 <= j < lines.len() ==> (#[trigger] steps[j]) is Line && steps[j]->Line_0 == lines[j]
    &&& more ==> coming == Some(steps.skip(lines.len() as int))
    &&& !more ==> lines.len() == steps.len() || steps[lines.len() as int] is Failed
}

/// Lines that are the first steps are the first of the leading lines, and
/// all of them if the next step is no line.
pub proof fn lemma_leading_lines(steps: Seq<LineStep>, lines: Seq<Seq<char>>)
    requires
        lines.len() <= steps.len(),
        forall|j: int|
            0 <= j < lines.len() ==> (#[trigger] steps[j]) is Line && steps[j]->Line_0 == lines[j],
    ensures
        leading_lines(steps).len() >= lines.len(),
        leading_lines(steps).take(lines.len() as int) == lines,
        lines.len() == steps.len() || steps[lines.len() as int] is Failed ==> leading_lines(steps)
            == lines,
    decreases lines.len(),
{
    if lines.len() == 0 {
        assert(leading_lines(steps).take(0) =~= lines);
        if steps.len() == 0 || steps[0] is Failed {
            assert(leading_lines(steps) =~= lines);
        }
    } else {
        let rest_steps = steps.drop_first();
        let rest_lines = lines.drop_first();
        assert(steps[0] is Line && steps[0]->Line_0 == lines[0]);
        assert forall|j: int| 0 <= j < rest_lines.len() implies (#[trigger] rest_steps[j]) is Line
            && rest_steps[j]->Line_0 == rest_lines[j] by {
            assert(rest_steps[j] == steps[j + 1]);
            assert(rest_lines[j] == lines[j + 1]);
        }
        lemma_leading_lines(rest_steps, rest_lines);
        let lead = leading_lines(steps);
        assert(lead == seq![lines[0]] + leading_lines(rest_steps));
        assert(lead.take(lines.len() as int) =~= seq![lines[0]] + leading_lines(rest_steps).take(
            rest_lines.len() as int,
        ));
        assert(seq![lines[0]] + rest_lines =~= lines);
        if lines.len() == steps.len() || steps[lines.len() as int] is Failed {
            if rest_lines.len() < rest_steps.len() {
                assert(rest_steps[rest_lines.len() as int] == steps[lines.len() as int]);
            }
        }
    }
}

/// Whether the text of an error names the path and, behind a colon and a
/// space, some cause.
pub open spec fn names_cause(path: Seq<char>, error: Seq<char>) -> bool {
    exists|cause: Seq<char>| error == #[trigger] failure_text(path, cause)
}

/// What a file without a fatal error can be reported with: the issues of
/// some text, or those of some lines and tail.
pub open spec fn reportable(checks: CheckConfig, issues: Seq<super::IssueView>) -> bool {
    ||| exists|text: Seq<char>| issues == #[trigger] content_issues(checks, text)
    ||| exists|lines: Seq<Seq<char>>, tail: Option<Seq<u8>>|
        issues == #[trigger] stream_issues(checks, lines, tail)
}

/// Checks files that it reads through `R`.
pub struct FileChecker<R: FileReader> {
    file_reader: R,
    checker: CheckerCore,
}

impl<R: FileReader> FileChecker<R> {
    /// The configuration the checker was made with.
    pub closed spec fn spec_config(&self) -> Config {
        self.checker.spec_config()
    }

    /// The reader that the checker reads through.
    pub closed spec fn reader(&self) -> R {
        self.file_reader
    }

    /// A checker that reads through `file_reader` and applies the rules
    /// that `config` has switched on.
    pub fn new(file_reader: R, config: Config) -> (checker: Self)
        ensures
            checker.spec_config() == config,
            checker.reader() == file_reader,
    {
        FileChecker { file_reader, checker: CheckerCore::new(config) }
    }

    /// Checks one file. If its length cannot be had, the result carries the
    /// error and no issues; this never disturbs the check of another file.
    /// A file above the threshold is read line by line, any other as a
    /// whole. Whatever the reader gives, a result with an error has no
    /// issues.
    pub fn check_file(&self, path: &str) -> (result: CheckResult)
        ensures
            result.file_path@ == path@,
            result.error is Some ==> result.issues@.len() == 0 && names_cause(
                path@,
                result.error->0@,
            ),
            result.error is None ==> reportable(
                self.spec_config().checks,
                issue_views(result.issues@),
            ),
            orderly(issue_views(result.issues@)),
            foreseen(self.reader(), self.spec_config().checks, path@) is Some ==> result@
                == foreseen(self.reader(), self.spec_config().checks, path@)->0,
    {
        match self.file_reader.metadata(path) {
            Err(cause) => failed(path, cause.as_str()),
            Ok(metadata) => {
                match select_mode(metadata.len) {
                    CheckMode::Streaming => self.check_file_streaming(path),
                    CheckMode::InMemory => self.check_file_in_memory(path),
                }
            },
        }
    }

    /// Checks a file by reading it as one text. If it cannot be read or
    /// decoded, the result carries the error and no issues.
    pub fn check_file_in_memory(&self, path: &str) -> (result: CheckResult)
        ensures
            result.file_path@ == path@,
            result.error is Some ==> result.issues@.len() == 0 && names_cause(
                path@,
                result.error->0@,
            ),
            result.error is None ==> reportable(
                self.spec_config().checks,
                issue_views(result.issues@),
            ),
            orderly(issue_views(result.issues@)),
            foreseen_in_memory(self.reader(), self.spec_config().checks, path@) is Some
                ==> result@ == foreseen_in_memory(
                self.reader(),
                self.spec_config().checks,
                path@,
            )->0,
    {
        let read = self.file_reader.read_to_string(path);
        in_memory_outcome(&self.checker, path, read)
    }

    /// Checks a file line by line. If it cannot be opened, the result
    /// carries the error and no issues. A line that cannot be read ends the
    /// reading without an error: the issues found up to it are kept. The end
    /// of the file is then read a second time, if the newline rule is on and
    /// a line was read.
    pub fn check_file_streaming(&self, path: &str) -> (result: CheckResult)
        ensures
            result.file_path@ == path@,
            result.error is Some ==> result.issues@.len() == 0 && names_cause(
                path@,
                result.error->0@,
            ),
            result.error is None ==> reportable(
                self.spec_config().checks,
                issue_views(result.issues@),
            ),
            orderly(issue_views(result.issues@)),
            foreseen_streaming(self.reader(), self.spec_config().checks, path@) is Some
                ==> result@ == foreseen_streaming(
                self.reader(),
                self.spec_config().checks,
                path@,
            )->0,
    {
        let mut source = match self.file_reader.open(path) {
            Ok(source) => source,
            Err(cause) => {
                return failed(path, cause.as_str());
            },
        };
        let ghost known = self.reader().lines_answer(path@);
        let ghost steps = source.coming();
        let checks = self.checker.config().checks;
        let mut scan = StreamScan::new(checks);
        let mut more = true;
        assert(steps is Some ==> steps->0.skip(0) =~= steps->0);
        while more && scan.line_count() < usize::MAX
            invariant
                scan.wf(),
                scan.checks() == checks,
                steps is Some ==> reading(steps->0, scan.lines(), source.coming(), more),
            decreases
                    usize::MAX - scan.lines().len() + (if more {
                        1int
                    } else {
                        0int
                    }),
        {
            let ghost before = scan.lines();
            let ghost to_come = source.coming();
            let event = source.next_line();
            more = scan.take(event);
            proof {
                if steps is Some {
                    let n = before.len() as int;
                    let rest = steps->0.skip(n);
                    assert(to_come == Some(rest));
                    if rest.len() > 0 {
                        assert(rest[0] == steps->0[n]);
                        assert(rest.drop_first() =~= steps->0.skip(n + 1));
                    }
                }
            }
        }
        let tail = if scan.wants_tail() {
            self.read_end(path)
        } else {
            None
        };
        let ghost lines = scan.lines();
        let ghost end = tail_view(tail);
        proof {
            scan.lemma_wf();
            law_stream_issues_orderly(checks, lines, end);
            if steps is Some {
                lemma_leading_lines(steps->0, lines);
                assert(lines_read(steps->0) == lines) by {
                    let lead = leading_lines(steps->0);
                    if more {
                        assert(lines.len() == usize::MAX);
                        if lead.len() <= usize::MAX {
                            assert(lead.take(lines.len() as int) =~= lead);
                        }
                    }
                }
            }
        }
        let issues = scan.finish(tail);
        assert(issue_views(issues@) == stream_issues(checks, lines, end));
        checked(path, issues)
    }

    /// Reads the last bytes of the file: two of them, or all if it has
    /// fewer. A failure to read them is not an error of the file: its end
    /// is then not judged. Where the reader knows its answer beforehand,
    /// the bytes handed back are those of the answer, and none if it is an
    /// error.
    fn read_end(&self, path: &str) -> (tail: Option<Vec<u8>>)
        ensures
            self.reader().tail_answer(path@, TAIL_LEN as nat) is Some ==> tail_view(tail)
                == kept_tail(self.reader().tail_answer(path@, TAIL_LEN as nat)->0),
    {
        match self.file_reader.read_tail(path, TAIL_LEN) {
            Ok(bytes) => Some(bytes),
            Err(_) => None,
        }
    }

    /// The newline issue of a file, from a read of its last two bytes
    /// alone. If they cannot be read there is no issue. Whatever is read,
    /// an issue found is a newline issue and names no line. Where the
    /// reader knows its answer beforehand, the issue is exactly the one
    /// that the bytes of the answer show.
    pub fn check_final_newline_streaming(&self, path: &str) -> (found: Option<Issue>)
        ensures
            found is Some ==> is_ending(found->0@),
            self.reader().tail_answer(path@, TAIL_LEN as nat) is Some ==> shows_finding(
                found,
                tail_finding(kept_tail(self.reader().tail_answer(path@, TAIL_LEN as nat)->0)),
            ),
    {
        tail_issue(self.read_end(path))
    }
}

/// The bytes that are kept of an answer to the read of a file's end: those
/// of an answer that is no error.
pub open spec fn kept_tail(answer: Result<Seq<u8>, Seq<char>>) -> Option<Seq<u8>> {
    match answer {
        Ok(bytes) => Some(bytes),
        Err(_) => None,
    }
}

/// The newline issue that the last bytes of a file show, if they were read
/// and show one.
pub open spec fn tail_finding(tail: Option<Seq<u8>>) -> Option<IssueView> {
    if tail is Some {
        ending_issue(ending_of_bytes(tail->0))
    } else {
        None
    }
}

/// Whether what was found is the finding: both nothing, or the same issue.
pub open spec fn shows_finding(found: Option<Issue>, finding: Option<IssueView>) -> bool {
    &&& found is Some <==> finding is Some
    &&& found is Some ==> found->0@ == finding->0
}

/// The newline issue that the last bytes of a file show, if they were read
/// and show one.
pub fn tail_issue(tail: Option<Vec<u8>>) -> (found: Option<Issue>)
    ensures
        shows_finding(found, tail_finding(tail_view(tail))),
{
    match tail {
        Some(bytes) => ending_to_issue(classify_tail(&bytes)),
        None => None,
    }
}

} // verus!
