//! The rules applied to a file that is read line by line and never held in
//! memory as a whole.

use super::checker_core::{
    classify_ending, ending_to_issue, lemma_push_trailing, line_ends_blank, trailing_space_issue,
};
use super::io_trait::LineEvent;
use super::rules::{blank_ended, lemma_blank_ended_push, Ending};
use super::{ending_part, issue_views, trailing_issues, Issue, IssueView};
use crate::config::CheckConfig;
use vstd::prelude::*;

verus! {

/// The byte that ends a line.
pub const LINE_FEED: u8 = 10;

/// How many bytes from the end of a file decide its ending.
pub const TAIL_LEN: usize = 2;

/// The classification of a file's end, from its last bytes. The rule is
/// that of `ending_of`, on bytes.
pub open spec fn ending_of_bytes(tail: Seq<u8>) -> Ending {
    if tail.len() == 0 {
        Ending::Proper
    } else if tail.last() != LINE_FEED {
        Ending::Missing
    } else if tail.len() >= 2 && tail[tail.len() - 2] == LINE_FEED {
        Ending::Repeated
    } else {
        Ending::Proper
    }
}

/// The bytes of a tail that was read, if it was.
pub open spec fn tail_view(tail: Option<Vec<u8>>) -> Option<Seq<u8>> {
    match tail {
        Some(bytes) => Some(bytes@),
        None => None,
    }
}

/// What the trailing-whitespace rule reports for lines when it is on.
pub open spec fn trailing_part_of_lines(on: bool, lines: Seq<Seq<char>>) -> Seq<IssueView> {
    if on {
        trailing_issues(blank_ended(lines))
    } else {
        Seq::empty()
    }
}

/// Everything reported for a file read as `lines`, whose last bytes were
/// read as `tail` where that read was made and did not fail. The end of the
/// file is judged only when the rule is on and at least one line was read.
pub open spec fn stream_issues(
    checks: CheckConfig,
    lines: Seq<Seq<char>>,
    tail: Option<Seq<u8>>,
) -> Seq<IssueView> {
    trailing_part_of_lines(checks.trailing_spaces, lines) + ending_part(
        checks.newline_ending && lines.len() > 0 && tail is Some,
        ending_of_bytes(tail->0),
    )
}

/// The state of checking one file line by line: how many lines were read and
/// the issues found in them.
pub struct StreamScan {
    checks: CheckConfig,
    count: usize,
    found: Vec<Issue>,
    seen: Ghost<Seq<Seq<char>>>,
}

impl StreamScan {
    /// The rules that are switched on.
    pub closed spec fn checks(&self) -> CheckConfig {
        self.checks
    }

    /// The lines read so far, in order.
    pub closed spec fn lines(&self) -> Seq<Seq<char>> {
        self.seen@
    }

    /// The issues found so far.
    pub closed spec fn issues(&self) -> Seq<IssueView> {
        issue_views(self.found@)
    }

    /// The counter agrees with the lines read, and the issues found are
    /// those of these lines.
    pub closed spec fn wf(&self) -> bool {
        &&& self.count == self.seen@.len()
        &&& issue_views(self.found@) == trailing_part_of_lines(
            self.checks.trailing_spaces,
            self.seen@,
        )
    }

    /// What `wf` says, for callers outside this module.
    pub proof fn lemma_wf(&self)
        requires
            self.wf(),
        ensures
            self.lines().len() <= usize::MAX,
            self.issues() == trailing_part_of_lines(self.checks().trailing_spaces, self.lines()),
    {
    }

    /// A scan that has read nothing yet.
    pub fn new(checks: CheckConfig) -> (scan: Self)
        ensures
            scan.wf(),
            scan.checks() == checks,
            scan.lines() == Seq::<Seq<char>>::empty(),
    {
        let scan = StreamScan { checks, count: 0, found: Vec::new(), seen: Ghost(Seq::empty()) };
        assert(issue_views(scan.found@) =~= Seq::<IssueView>::empty());
        assert(trailing_issues(blank_ended(Seq::<Seq<char>>::empty())) =~= Seq::<
            IssueView,
        >::empty());
        scan
    }

    /// The number of lines read so far.
    pub fn line_count(&self) -> (n: usize)
        requires
            self.wf(),
        ensures
            n == self.lines().len(),
    {
        self.count
    }

    /// Takes the next line of the file. It gets the next line number, and an
    /// issue if the trailing-whitespace rule is on and the line ends in a
    /// space or a tab.
    pub fn push_line(&mut self, line: &str)
        requires
            old(self).wf(),
            old(self).lines().len() < usize::MAX,
        ensures
            final(self).wf(),
            final(self).checks() == old(self).checks(),
            final(self).lines() == old(self).lines().push(line@),
    {
        let number: usize = self.count + 1;
        proof {
            lemma_blank_ended_push(self.seen@, line@);
        }
        if self.checks.trailing_spaces {
            if line_ends_blank(line) {
                let issue = trailing_space_issue(number);
                proof {
                    lemma_push_trailing(
                        self.found@,
                        blank_ended(self.seen@),
                        issue,
                        number as nat,
                    );
                }
                self.found.push(issue);
            }
        }
        self.count = number;
        self.seen = Ghost(self.seen@.push(line@));
    }

    /// Takes what a read of the next line gave, and says whether the
    /// reading goes on. A line is taken as `push_line` takes it, and the
    /// reading goes on. A failed read and the end of the file both end the
    /// reading and change nothing: what was found up to a failed read is
    /// kept, and the failure is no error of the file.
    pub fn take(&mut self, event: LineEvent) -> (more: bool)
        requires
            old(self).wf(),
            old(self).lines().len() < usize::MAX,
        ensures
            final(self).wf(),
            final(self).checks() == old(self).checks(),
            more == (event is Line),
            event is Line ==> final(self).lines() == old(self).lines().push(event->Line_0@),
            !(event is Line) ==> final(self).lines() == old(self).lines(),
    {
        match event {
            LineEvent::Line(line) => {
                self.push_line(line.as_str());
                true
            },
            LineEvent::Failed => false,
            LineEvent::End => false,
        }
    }

    /// Whether the end of the file has to be read: the newline rule is on
    /// and at least one line was read.
    pub fn wants_tail(&self) -> (wanted: bool)
        requires
            self.wf(),
        ensures
            wanted == (self.checks().newline_ending && self.lines().len() > 0),
    {
        self.checks.newline_ending && self.count > 0
    }

    /// Ends the scan. `tail` holds the last bytes of the file, or nothing if
    /// they were not read. The newline issue, if any, comes last.
    pub fn finish(self, tail: Option<Vec<u8>>) -> (issues: Vec<Issue>)
        requires
            self.wf(),
        ensures
            issue_views(issues@) == stream_issues(self.checks(), self.lines(), tail_view(tail)),
    {
        let wanted = self.wants_tail();
        let mut issues = self.found;
        let ghost before = issues@;
        if wanted {
            if let Some(bytes) = tail {
                if let Some(issue) = ending_to_issue(classify_tail(&bytes)) {
                    issues.push(issue);
                    assert(issue_views(issues@) =~= issue_views(before) + seq![issue@]);
                    return issues;
                }
            }
        }
        assert(issue_views(before) + Seq::<IssueView>::empty() =~= issue_views(before));
        issues
    }
}

/// Classifies the end of a file from its last bytes.
pub fn classify_tail(tail: &Vec<u8>) -> (e: Ending)
    ensures
        e == ending_of_bytes(tail@),
{
    let n: usize = tail.len();
    if n == 0 {
        Ending::Proper
    } else {
        let last = Some(tail[n - 1] == LINE_FEED);
        let before = n >= 2 && tail[n - 2] == LINE_FEED;
        classify_ending(last, before)
    }
}

} // verus!
