//! The rules applied to text that is already in memory.

use super::rules::{
    blank_ended, ending_of, has_trailing_blank, is_blank, lemma_blank_ended_push, lemma_last_line,
    lemma_line_closed, lines_of, strip_cr, Ending,
};
use super::{
    content_issues, ending_issue, issue_views, trailing_issue, trailing_issues, trailing_part,
    Issue, IssueType, IssueView,
};
use super::laws::{law_content_issues_orderly, lemma_parts_orderly, orderly};
use crate::config::Config;
use crate::text::last_char;
use vstd::prelude::*;

verus! {

/// Core checker: the two rules, each behind its switch.
pub struct CheckerCore {
    config: Config,
}

impl CheckerCore {
    /// The configuration the checker was made with.
    pub closed spec fn spec_config(&self) -> Config {
        self.config
    }

    /// A checker that applies the rules that `config` has switched on.
    pub fn new(config: Config) -> (checker: Self)
        ensures
            checker.spec_config() == config,
    {
        CheckerCore { config }
    }

    /// The configuration the checker was made with.
    pub fn config(&self) -> (config: &Config)
        ensures
            *config == self.spec_config(),
    {
        &self.config
    }

    /// The newline-ending rule on a whole text: nothing when the rule is off
    /// or the text is empty, `MissingNewline` when the last character is no
    /// line feed, `MultipleNewlines` when the last two are line feeds.
    pub fn check_newline_ending(&self, content: &str) -> (found: Option<Issue>)
        ensures
            found is Some <==> self.spec_config().checks.newline_ending && ending_issue(
                ending_of(content@),
            ) is Some,
            found is Some ==> found->0@ == ending_issue(ending_of(content@))->0,
    {
        if !self.config.checks.newline_ending {
            return None;
        }
        let mut last: Option<bool> = None;
        let mut before: bool = false;
        for c in it: content.chars()
            invariant
                it.seq() == content@,
                last == (if it.index() >= 1 {
                    Some(content@[it.index() - 1] == '\n')
                } else {
                    None
                }),
                before == (it.index() >= 2 && content@[it.index() - 2] == '\n'),
        {
            before = match last {
                Some(feed) => feed,
                None => false,
            };
            last = Some(c == '\n');
        }
        ending_to_issue(classify_ending(last, before))
    }

    /// The trailing-whitespace rule on one line that carries the number
    /// `line_number`: an issue exactly when the rule is on and the line ends
    /// in a space or a tab.
    pub fn check_line_trailing_whitespace(&self, line: &str, line_number: usize) -> (found: Option<
        Issue,
    >)
        ensures
            found is Some <==> self.spec_config().checks.trailing_spaces && has_trailing_blank(
                line@,
            ),
            found is Some ==> found->0@ == trailing_issue(line_number as nat),
    {
        if !self.config.checks.trailing_spaces {
            return None;
        }
        if line_ends_blank(line) {
            Some(trailing_space_issue(line_number))
        } else {
            None
        }
    }

    /// The trailing-whitespace rule on every logical line of a text: one
    /// issue for each line that ends in a space or a tab, by ascending line
    /// number, and nothing when the rule is off.
    pub fn check_content_trailing_whitespace(&self, content: &str) -> (issues: Vec<Issue>)
        ensures
            issue_views(issues@) == trailing_part(
                self.spec_config().checks.trailing_spaces,
                content@,
            ),
    {
        self.scan_trailing(content)
    }

    /// One pass over the characters of the text. It also learns that the
    /// text has a length that fits the line counter.
    fn scan_trailing(&self, content: &str) -> (issues: Vec<Issue>)
        ensures
            issue_views(issues@) == trailing_part(
                self.spec_config().checks.trailing_spaces,
                content@,
            ),
            self.spec_config().checks.trailing_spaces ==> content@.len() <= usize::MAX,
    {
        let mut issues: Vec<Issue> = Vec::new();
        if !self.config.checks.trailing_spaces {
            assert(issue_views(issues@) =~= Seq::<IssueView>::empty());
            return issues;
        }
        let total: usize = content.unicode_len();
        let ghost s = content@;
        let ghost mut start: int = 0;
        let mut done: usize = 0;
        let mut last: Option<char> = None;
        let mut before: Option<char> = None;
        assert(s.take(0) =~= Seq::<char>::empty());
        assert(issue_views(issues@) =~= trailing_issues(Seq::<nat>::empty()));
        for c in it: content.chars()
            invariant
                it.seq() == s,
                s.len() == total,
                0 <= start <= it.index(),
                start == 0 || s[start - 1] == '\n',
                forall|j: int| start <= j < it.index() ==> s[j] != '\n',
                done == lines_of(s.take(start)).len(),
                done <= start,
                issue_views(issues@) == trailing_issues(blank_ended(lines_of(s.take(start)))),
                last == (if it.index() > start {
                    Some(s[it.index() - 1])
                } else {
                    None
                }),
                before == (if it.index() > start + 1 {
                    Some(s[it.index() - 2])
                } else {
                    None
                }),
        {
            let ghost i = it.index() as int;
            assert(c == s[i]);
            if c == '\n' {
                let effective = match last {
                    Some('\r') => before,
                    _ => last,
                };
                let ghost line = strip_cr(s.subrange(start, i));
                proof {
                    lemma_line_closed(s, start, i);
                    lemma_blank_ended_push(lines_of(s.take(start)), line);
                    lemma_effective_last(s, start, i);
                }
                if ends_blank(effective) {
                    let issue = trailing_space_issue(done + 1);
                    proof {
                        lemma_push_trailing(
                            issues@,
                            blank_ended(lines_of(s.take(start))),
                            issue,
                            (done + 1) as nat,
                        );
                    }
                    issues.push(issue);
                }
                done = done + 1;
                last = None;
                before = None;
                proof {
                    start = i + 1;
                }
            } else {
                before = last;
                last = Some(c);
            }
        }
        proof {
            lemma_last_line(s, start);
            if start < s.len() {
                lemma_blank_ended_push(lines_of(s.take(start)), s.skip(start));
                assert(s.skip(start).last() == s[s.len() - 1]);
            }
        }
        if ends_blank(last) {
            let issue = trailing_space_issue(done + 1);
            proof {
                lemma_push_trailing(
                    issues@,
                    blank_ended(lines_of(s.take(start))),
                    issue,
                    (done + 1) as nat,
                );
            }
            issues.push(issue);
        }
        issues
    }

    /// Every issue of a text: the trailing-space issues by ascending line,
    /// then the newline issue, if any, last. Empty text has no issues.
    pub fn check_content(&self, content: &str) -> (issues: Vec<Issue>)
        ensures
            issue_views(issues@) == content_issues(self.spec_config().checks, content@),
            content@.len() == 0 ==> issues@.len() == 0,
            orderly(issue_views(issues@)),
    {
        let mut issues = self.scan_trailing(content);
        proof {
            if self.config.checks.trailing_spaces {
                law_content_issues_orderly(self.config.checks, content@);
            } else {
                lemma_parts_orderly(
                    false,
                    Seq::<Seq<char>>::empty(),
                    self.config.checks.newline_ending,
                    ending_of(content@),
                );
            }
        }
        let ghost before = issues@;
        match self.check_newline_ending(content) {
            Some(issue) => {
                issues.push(issue);
                assert(issue_views(issues@) =~= issue_views(before) + seq![issue@]);
            },
            None => {
                assert(issue_views(before) + Seq::<IssueView>::empty() =~= issue_views(
                    before,
                ));
            },
        }
        proof {
            if content@.len() == 0 {
                assert(lines_of(content@) == Seq::<Seq<char>>::empty());
            }
        }
        issues
    }
}

/// The last character that counts of a line that a line feed at `i` closes:
/// the one before the line feed, or the one before a carriage return there.
pub proof fn lemma_effective_last(s: Seq<char>, start: int, i: int)
    requires
        0 <= start <= i < s.len(),
    ensures
        has_trailing_blank(strip_cr(s.subrange(start, i))) == ends_blank_spec(
            if i > start && s[i - 1] == '\r' {
                if i > start + 1 {
                    Some(s[i - 2])
                } else {
                    None
                }
            } else if i > start {
                Some(s[i - 1])
            } else {
                None
            },
        ),
{
    let raw = s.subrange(start, i);
    if raw.len() > 0 {
        assert(raw.last() == s[i - 1]);
        if raw.last() == '\r' && raw.len() > 1 {
            assert(raw.drop_last().last() == s[i - 2]);
        }
    }
}

/// A list of trailing-space issues grows by one issue as its line numbers
/// grow by one number.
pub proof fn lemma_push_trailing(issues: Seq<Issue>, numbers: Seq<nat>, issue: Issue, n: nat)
    requires
        issue_views(issues) == trailing_issues(numbers),
        issue@ == trailing_issue(n),
    ensures
        issue_views(issues.push(issue)) == trailing_issues(numbers.push(n)),
{
    let a = issue_views(issues.push(issue));
    let b = trailing_issues(numbers.push(n));
    assert(issue_views(issues).len() == issues.len());
    assert(trailing_issues(numbers).len() == numbers.len());
    assert(a.len() == issues.len() + 1);
    assert(b.len() == numbers.len() + 1);
    assert forall|i: int| 0 <= i < a.len() implies a[i] == b[i] by {
        if i < issues.len() {
            assert(a[i] == issue_views(issues)[i]);
            assert(numbers.push(n)[i] == numbers[i]);
            assert(b[i] == trailing_issues(numbers)[i]);
        } else {
            assert(issues.push(issue)[i] == issue);
            assert(numbers.push(n)[i] == n);
        }
    }
    assert(a =~= b);
}

/// The trailing-whitespace rule itself, on one line: whether the line ends
/// in a space or a tab. Both ways of reading a file judge their lines by it.
pub fn line_ends_blank(line: &str) -> (blank: bool)
    ensures
        blank == has_trailing_blank(line@),
{
    ends_blank(last_char(line))
}

/// Whether an optional last character is a blank.
pub open spec fn ends_blank_spec(last: Option<char>) -> bool {
    last is Some && is_blank(last->0)
}

/// Whether an optional last character is a space or a tab.
#[verifier::when_used_as_spec(ends_blank_spec)]
pub fn ends_blank(last: Option<char>) -> (b: bool)
    ensures
        b == ends_blank_spec(last),
{
    match last {
        Some(c) => c == ' ' || c == '\t',
        None => false,
    }
}

/// The ending of a text from its last two positions: whether the last one
/// holds a line feed (`None` for an empty text), and whether the one before
/// it exists and holds a line feed.
pub open spec fn ending_by(last_is_feed: Option<bool>, before_is_feed: bool) -> Ending {
    match last_is_feed {
        None => Ending::Proper,
        Some(false) => Ending::Missing,
        Some(true) => if before_is_feed {
            Ending::Repeated
        } else {
            Ending::Proper
        },
    }
}

/// The newline-ending rule itself, shared by both ways of reading a file.
#[verifier::when_used_as_spec(ending_by)]
pub fn classify_ending(last_is_feed: Option<bool>, before_is_feed: bool) -> (e: Ending)
    ensures
        e == ending_by(last_is_feed, before_is_feed),
{
    match last_is_feed {
        None => Ending::Proper,
        Some(false) => Ending::Missing,
        Some(true) => {
            if before_is_feed {
                Ending::Repeated
            } else {
                Ending::Proper
            }
        },
    }
}

/// The issue for trailing whitespace on the given line.
pub fn trailing_space_issue(line: usize) -> (issue: Issue)
    ensures
        issue@ == trailing_issue(line as nat),
{
    Issue {
        issue_type: IssueType::TrailingSpace,
        line: Some(line),
        message: "Trailing spaces found".to_owned(),
    }
}

/// The issue, if any, for an ending.
pub fn ending_to_issue(e: Ending) -> (found: Option<Issue>)
    ensures
        found is Some <==> ending_issue(e) is Some,
        found is Some ==> found->0@ == ending_issue(e)->0,
{
    match e {
        Ending::Proper => None,
        Ending::Missing => Some(
            Issue {
                issue_type: IssueType::MissingNewline,
                line: None,
                message: "Missing newline at end of file".to_owned(),
            },
        ),
        Ending::Repeated => Some(
            Issue {
                issue_type: IssueType::MultipleNewlines,
                line: None,
                message: "Multiple newlines at end of file".to_owned(),
            },
        ),
    }
}

} // verus!
