//! Repairing what the checker found: the text that a file should hold
//! instead. Reading and writing the file is left to the caller.

use crate::checker::laws::lemma_line_count;
use crate::checker::rules::{
    blank_ended, ending_of, first_break, lemma_first_break, lemma_lines_concat,
    lemma_one_open_line, lemma_one_terminated_line, lines_of, strip_cr, Ending,
};
use crate::checker::{issue_views, Issue, IssueType};
use crate::reporter::numbers::{decimal, push_decimal};
use crate::text::lemma_texts_push;
use crate::config::{CheckConfig, Config};
use crate::text::{
    is_whitespace, last_char, lemma_trimmed_end, same_text, split_lines, texts, trimmed_end,
};
use vstd::prelude::*;
use vstd::string::StringExecFns;

verus! {

/// What became of one file.
#[derive(Debug, Clone)]
pub struct FixResult {
    pub file_path: String,
    /// The file holds, or in a dry run would hold, another text than before.
    pub fixed: bool,
    /// The issues that the new text repairs.
    pub issues_fixed: Vec<Issue>,
}

/// Whether an issue of the given type is among the issues.
pub open spec fn has_issue(issues: Seq<Issue>, wanted: IssueType) -> bool {
    exists|i: int| 0 <= i < issues.len() && (#[trigger] issues[i]).issue_type == wanted
}

/// Each line without the whitespace at its end.
pub open spec fn trimmed_lines(lines: Seq<Seq<char>>) -> Seq<Seq<char>> {
    Seq::new(lines.len(), |i: int| trimmed_end(lines[i]))
}

/// The lines with a line feed between each two.
pub open spec fn joined_lines(lines: Seq<Seq<char>>) -> Seq<char>
    decreases lines.len(),
{
    if lines.len() == 0 {
        Seq::empty()
    } else if lines.len() == 1 {
        lines[0]
    } else {
        joined_lines(lines.drop_last()) + seq!['\n'] + lines.last()
    }
}

/// A text with the whitespace at the end of every line removed. The lines
/// are joined by line feeds, and the text ends in a line feed if it did.
pub open spec fn without_trailing_spaces(content: Seq<char>) -> Seq<char> {
    let body = joined_lines(trimmed_lines(lines_of(content)));
    if content.len() > 0 && content.last() == '\n' {
        body.push('\n')
    } else {
        body
    }
}

/// A text that ends in exactly one line feed: the whitespace at its end is
/// removed and one line feed is put there.
pub open spec fn with_single_newline(content: Seq<char>) -> Seq<char> {
    trimmed_end(content).push('\n')
}

/// Which repairs a list of issues calls for. A repair is made only for a
/// rule that is switched on and for which an issue was reported.
#[derive(Debug, Clone, Copy)]
pub struct FixPlan {
    pub trailing: bool,
    pub newline: bool,
}

/// The repairs that the issues call for under the rules that are on.
pub open spec fn plan_for(issues: Seq<Issue>, checks: CheckConfig) -> FixPlan {
    FixPlan {
        trailing: checks.trailing_spaces && has_issue(issues, IssueType::TrailingSpace),
        newline: checks.newline_ending && (has_issue(issues, IssueType::MissingNewline)
            || has_issue(issues, IssueType::MultipleNewlines)),
    }
}

/// The text after the planned repairs: first the line ends, then the end
/// of the file.
pub open spec fn repaired(content: Seq<char>, plan: FixPlan) -> Seq<char> {
    let first = if plan.trailing {
        without_trailing_spaces(content)
    } else {
        content
    };
    if plan.newline {
        with_single_newline(first)
    } else {
        first
    }
}

/// The lines without the empty lines at their end, but never without the
/// first line.
pub open spec fn without_empty_tail(lines: Seq<Seq<char>>) -> Seq<Seq<char>>
    decreases lines.len(),
{
    if lines.len() > 1 && lines.last().len() == 0 {
        without_empty_tail(lines.drop_last())
    } else {
        lines
    }
}

/// The lines that a file read line by line is written back with.
pub open spec fn repaired_lines(lines: Seq<Seq<char>>, plan: FixPlan) -> Seq<Seq<char>> {
    let first = if plan.trailing {
        trimmed_lines(lines)
    } else {
        lines
    };
    if plan.newline {
        without_empty_tail(first)
    } else {
        first
    }
}

/// The text that a file read line by line is written back as: the repaired
/// lines joined by line feeds, and a last line feed unless nothing is left
/// and the end of the file is not repaired.
pub open spec fn repaired_stream(lines: Seq<Seq<char>>, plan: FixPlan) -> Seq<char> {
    let kept = repaired_lines(lines, plan);
    if plan.newline || kept.len() > 0 {
        joined_lines(kept).push('\n')
    } else {
        joined_lines(kept)
    }
}

/// What is left of a text without the white space at its end: a start of
/// the text that does not end in white space.
pub open spec fn trimmed_well(text: Seq<char>, kept: Seq<char>) -> bool {
    &&& kept.len() <= text.len()
    &&& kept == text.take(kept.len() as int)
    &&& kept.len() > 0 ==> !is_whitespace(kept.last())
}

/// A text that holds no line feed.
pub open spec fn no_feed(line: Seq<char>) -> bool {
    forall|k: int| 0 <= k < line.len() ==> line[k] != '\n'
}

/// A line that holds no line feed and ends neither in a blank nor in a
/// carriage return.
pub open spec fn tidy(line: Seq<char>) -> bool {
    &&& no_feed(line)
    &&& line.len() > 0 ==> line.last() != ' ' && line.last() != '\t' && line.last() != '\r'
}

/// The lines, each followed by a line feed.
pub open spec fn terminated_lines(lines: Seq<Seq<char>>) -> Seq<char>
    decreases lines.len(),
{
    if lines.len() == 0 {
        Seq::empty()
    } else {
        terminated_lines(lines.drop_last()) + lines.last() + seq!['\n']
    }
}

/// No logical line of a text holds a line feed.
pub proof fn lemma_lines_hold_no_feed(text: Seq<char>)
    ensures
        forall|i: int| 0 <= i < lines_of(text).len() ==> no_feed(#[trigger] lines_of(text)[i]),
    decreases text.len(),
{
    if text.len() > 0 {
        lemma_first_break(text);
        let b = first_break(text) as int;
        if b < text.len() {
            let rest = text.skip(b + 1);
            lemma_lines_hold_no_feed(rest);
            let head = strip_cr(text.take(b));
            assert(no_feed(head)) by {
                assert forall|k: int| 0 <= k < head.len() implies head[k] != '\n' by {
                    assert(head[k] == text[k]);
                }
            }
            assert forall|i: int| 0 <= i < lines_of(text).len() implies no_feed(
                #[trigger] lines_of(text)[i],
            ) by {
                if i == 0 {
                    assert(lines_of(text)[0] == head);
                } else {
                    assert(lines_of(text)[i] == lines_of(rest)[i - 1]);
                }
            }
        } else {
            assert(lines_of(text) =~= seq![text]);
        }
    }
}

/// Tidy lines, each followed by a line feed, are read back as they are.
pub proof fn lemma_terminated_lines_read_back(lines: Seq<Seq<char>>)
    requires
        forall|j: int| 0 <= j < lines.len() ==> tidy(#[trigger] lines[j]),
    ensures
        lines_of(terminated_lines(lines)) == lines,
        terminated_lines(lines).len() == 0 || terminated_lines(lines).last() == '\n',
    decreases lines.len(),
{
    if lines.len() > 0 {
        let init = lines.drop_last();
        let last = lines.last();
        assert forall|j: int| 0 <= j < init.len() implies tidy(#[trigger] init[j]) by {
            assert(init[j] == lines[j]);
        }
        lemma_terminated_lines_read_back(init);
        let row = last.push('\n');
        assert(terminated_lines(lines) =~= terminated_lines(init) + row);
        assert(tidy(last));
        assert(row.drop_last() =~= last);
        assert forall|k: int| 0 <= k < row.len() - 1 implies row[k] != '\n' by {
            assert(row[k] == last[k]);
        }
        lemma_one_terminated_line(row);
        lemma_lines_concat(terminated_lines(init), row);
        assert(strip_cr(last) == last);
        assert(init + seq![last] =~= lines);
    }
}

/// The lines joined are all but the last line terminated, and the last.
pub proof fn lemma_joined_is_terminated(lines: Seq<Seq<char>>)
    requires
        lines.len() > 0,
    ensures
        joined_lines(lines) == terminated_lines(lines.drop_last()) + lines.last(),
    decreases lines.len(),
{
    if lines.len() == 1 {
        assert(terminated_lines(lines.drop_last()) + lines.last() =~= lines[0]);
    } else {
        let init = lines.drop_last();
        lemma_joined_is_terminated(init);
        assert(joined_lines(lines) =~= terminated_lines(init.drop_last()) + init.last() + seq![
            '\n',
        ] + lines.last());
    }
}

/// Lines of which none ends in a blank give no trailing-space issue.
pub proof fn lemma_tidy_lines_are_clean(lines: Seq<Seq<char>>)
    requires
        forall|j: int| 0 <= j < lines.len() ==> tidy(#[trigger] lines[j]),
    ensures
        blank_ended(lines) == Seq::<nat>::empty(),
    decreases lines.len(),
{
    if lines.len() > 0 {
        let init = lines.drop_last();
        assert forall|j: int| 0 <= j < init.len() implies tidy(#[trigger] init[j]) by {
            assert(init[j] == lines[j]);
        }
        lemma_tidy_lines_are_clean(init);
        assert(tidy(lines.last()));
    }
}

/// Tidy lines joined by line feeds, with or without a line feed at the end,
/// make a text without a trailing-space issue.
pub proof fn lemma_joined_tidy_lines(lines: Seq<Seq<char>>, closed: bool)
    requires
        forall|j: int| 0 <= j < lines.len() ==> tidy(#[trigger] lines[j]),
        closed ==> lines.len() > 0,
    ensures
        blank_ended(
            lines_of(
                if closed {
                    joined_lines(lines).push('\n')
                } else {
                    joined_lines(lines)
                },
            ),
        ) == Seq::<nat>::empty(),
{
    if lines.len() == 0 {
        assert(lines_of(joined_lines(lines)) =~= Seq::<Seq<char>>::empty());
    } else {
        let init = lines.drop_last();
        let last = lines.last();
        assert forall|j: int| 0 <= j < init.len() implies tidy(#[trigger] init[j]) by {
            assert(init[j] == lines[j]);
        }
        assert(tidy(last));
        lemma_joined_is_terminated(lines);
        if closed {
            assert(joined_lines(lines).push('\n') =~= terminated_lines(lines));
            lemma_terminated_lines_read_back(lines);
            lemma_tidy_lines_are_clean(lines);
        } else {
            lemma_terminated_lines_read_back(init);
            lemma_lines_concat(terminated_lines(init), last);
            if last.len() > 0 {
                lemma_one_open_line(last);
                assert(init + seq![last] =~= lines);
                lemma_tidy_lines_are_clean(lines);
            } else {
                assert(lines_of(last) =~= Seq::<Seq<char>>::empty());
                assert(init + Seq::<Seq<char>>::empty() =~= init);
                lemma_tidy_lines_are_clean(init);
            }
        }
    }
}

/// Whether an issue of the given type is among the issues.
pub fn any_issue(issues: &[Issue], wanted: IssueType) -> (found: bool)
    ensures
        found == has_issue(issues@, wanted),
{
    let mut i: usize = 0;
    while i < issues.len()
        invariant
            0 <= i <= issues@.len(),
            forall|j: int| 0 <= j < i ==> (#[trigger] issues@[j]).issue_type != wanted,
        decreases issues@.len() - i,
    {
        if issues[i].issue_type == wanted {
            return true;
        }
        i = i + 1;
    }
    false
}

/// The repairs that the issues call for under the rules that are on.
pub fn plan_fix(issues: &[Issue], checks: &CheckConfig) -> (plan: FixPlan)
    ensures
        plan == plan_for(issues@, *checks),
{
    FixPlan {
        trailing: checks.trailing_spaces && any_issue(issues, IssueType::TrailingSpace),
        newline: checks.newline_ending && (any_issue(issues, IssueType::MissingNewline)
            || any_issue(issues, IssueType::MultipleNewlines)),
    }
}

/// Whether the text ends in a line feed.
pub fn ends_with_feed(content: &str) -> (yes: bool)
    ensures
        yes == (content@.len() > 0 && content@.last() == '\n'),
{
    match last_char(content) {
        Some(c) => c == '\n',
        None => false,
    }
}

/// The lines joined by line feeds, each without the whitespace at its end
/// if `trim` is set.
pub fn join_lines(lines: &Vec<String>, count: usize, trim: bool) -> (text: String)
    requires
        count <= lines@.len(),
    ensures
        text@ == joined_lines(
            if trim {
                trimmed_lines(texts(lines@).take(count as int))
            } else {
                texts(lines@).take(count as int)
            },
        ),
{
    let ghost all = if trim {
        trimmed_lines(texts(lines@).take(count as int))
    } else {
        texts(lines@).take(count as int)
    };
    let mut text = String::new();
    let mut i: usize = 0;
    assert(all.take(0) =~= Seq::<Seq<char>>::empty());
    while i < count
        invariant
            0 <= i <= count <= lines@.len(),
            all == (if trim {
                trimmed_lines(texts(lines@).take(count as int))
            } else {
                texts(lines@).take(count as int)
            }),
            all.len() == count,
            text@ == joined_lines(all.take(i as int)),
        decreases count - i,
    {
        let line = lines[i].as_str();
        let kept = if trim {
            line.trim_end()
        } else {
            line
        };
        proof {
            assert(all.take(i as int + 1).drop_last() =~= all.take(i as int));
            assert(all.take(i as int + 1).last() == all[i as int]);
            assert(all[i as int] == kept@);
            if i == 0 {
                assert(all.take(1)[0] == kept@);
                assert(joined_lines(all.take(0)) + kept@ =~= kept@);
            }
        }
        if i > 0 {
            text.push('\n');
        }
        text.append(kept);
        i = i + 1;
    }
    assert(all.take(count as int) =~= all);
    text
}

/// Removes the whitespace at the end of every line. The lines are joined
/// by line feeds; the end of the text keeps its line feed if it had one.
///
/// No line of the result ends in a space or a tab: checked again, it has
/// no trailing-space issue.
pub fn fix_trailing_spaces(content: &str) -> (fixed: String)
    ensures
        fixed@ == without_trailing_spaces(content@),
        blank_ended(lines_of(fixed@)) == Seq::<nat>::empty(),
{
    let lines = split_lines(content);
    assert(texts(lines@).take(lines@.len() as int) =~= texts(lines@));
    let mut fixed = join_lines(&lines, lines.len(), true);
    let closed = ends_with_feed(content);
    proof {
        let old_lines = lines_of(content@);
        let new_lines = trimmed_lines(old_lines);
        lemma_lines_hold_no_feed(content@);
        lemma_line_count(content@);
        assert forall|j: int| 0 <= j < new_lines.len() implies tidy(#[trigger] new_lines[j]) by {
            assert(old_lines[j] == lines@[j]@);
            lemma_trimmed_end(old_lines[j]);
            assert(trimmed_well(old_lines[j], new_lines[j]));
        }
        lemma_joined_tidy_lines(new_lines, closed);
    }
    if closed {
        fixed.push('\n');
    }
    fixed
}

/// Makes the text end in exactly one line feed: the whitespace at its end
/// goes, one line feed comes.
pub fn fix_newline_ending(content: &str) -> (fixed: String)
    ensures
        fixed@ == with_single_newline(content@),
        ending_of(fixed@) == Ending::Proper,
{
    let kept = content.trim_end();
    let mut fixed = kept.to_owned();
    fixed.push('\n');
    proof {
        lemma_trimmed_end(content@);
        assert(fixed@.last() == '\n');
        if fixed@.len() >= 2 {
            assert(fixed@[fixed@.len() - 2] == kept@.last());
        }
    }
    fixed
}

/// The text after the repairs that the issues call for. A rule that is off
/// is not repaired, and neither is a rule without an issue.
pub fn apply_fixes(content: &str, issues: &[Issue], config: &Config) -> (fixed: String)
    ensures
        fixed@ == repaired(content@, plan_for(issues@, config.checks)),
{
    let plan = plan_fix(issues, &config.checks);
    let first = if plan.trailing {
        fix_trailing_spaces(content)
    } else {
        content.to_owned()
    };
    if plan.newline {
        fix_newline_ending(first.as_str())
    } else {
        first
    }
}

/// A copy of a list of issues.
pub fn copy_issues(issues: &[Issue]) -> (copy: Vec<Issue>)
    ensures
        issue_views(copy@) == issue_views(issues@),
{
    let mut copy: Vec<Issue> = Vec::new();
    let mut i: usize = 0;
    while i < issues.len()
        invariant
            0 <= i <= issues@.len(),
            copy@.len() == i,
            forall|j: int| 0 <= j < i ==> (#[trigger] copy@[j])@ == issues@[j]@,
        decreases issues@.len() - i,
    {
        let issue = &issues[i];
        copy.push(
            Issue {
                issue_type: issue.issue_type,
                line: issue.line,
                message: issue.message.clone(),
            },
        );
        i = i + 1;
    }
    assert(issue_views(copy@) =~= issue_views(issues@));
    copy
}

/// The result of repairing a text that was read as a whole: the file
/// counts as fixed when the repaired text differs from the old one, and
/// only then are the issues reported as fixed. The new text is handed back
/// for writing if the file is fixed and this is no dry run.
pub fn fix_in_memory(
    path: &str,
    content: &str,
    issues: &[Issue],
    config: &Config,
    dry_run: bool,
) -> (outcome: (FixResult, Option<String>))
    ensures
        outcome.0.file_path@ == path@,
        outcome.0.fixed == (repaired(content@, plan_for(issues@, config.checks)) != content@),
        issue_views(outcome.0.issues_fixed@) == (if outcome.0.fixed {
            issue_views(issues@)
        } else {
            Seq::empty()
        }),
        outcome.1 is Some <==> outcome.0.fixed && !dry_run,
        outcome.1 is Some ==> outcome.1->0@ == repaired(
            content@,
            plan_for(issues@, config.checks),
        ),
{
    let fixed_content = apply_fixes(content, issues, config);
    let fixed = !same_text(content, fixed_content.as_str());
    let issues_fixed = if fixed {
        copy_issues(issues)
    } else {
        let none: Vec<Issue> = Vec::new();
        assert(issue_views(none@) =~= Seq::<crate::checker::IssueView>::empty());
        none
    };
    let result = FixResult { file_path: path.to_owned(), fixed, issues_fixed };
    if fixed && !dry_run {
        (result, Some(fixed_content))
    } else {
        (result, None)
    }
}

/// What to do with a file that is too large to be read as a whole.
#[derive(Debug)]
pub enum StreamFix {
    /// Nothing is written; this is the result.
    Done(FixResult),
    /// The file is to be written anew, with these repairs.
    Rewrite(FixPlan),
}

/// Decides what to do with a large file. A dry run writes nothing and
/// reports every issue as one that would be fixed. Otherwise the file is
/// written anew if a rule that is on has an issue, and left alone if not.
pub fn plan_streamed_fix(
    path: &str,
    issues: &[Issue],
    checks: &CheckConfig,
    dry_run: bool,
) -> (decision: StreamFix)
    ensures
        dry_run ==> decision is Done && decision->Done_0.file_path@ == path@
            && decision->Done_0.fixed == (issues@.len() > 0) && issue_views(
            decision->Done_0.issues_fixed@,
        ) == issue_views(issues@),
        !dry_run && !plan_for(issues@, *checks).trailing && !plan_for(issues@, *checks).newline
            ==> decision is Done && decision->Done_0.file_path@ == path@
            && !decision->Done_0.fixed && decision->Done_0.issues_fixed@.len() == 0,
        !dry_run && (plan_for(issues@, *checks).trailing || plan_for(issues@, *checks).newline)
            ==> decision is Rewrite && decision->Rewrite_0 == plan_for(issues@, *checks),
{
    if dry_run {
        return StreamFix::Done(
            FixResult {
                file_path: path.to_owned(),
                fixed: issues.len() > 0,
                issues_fixed: copy_issues(issues),
            },
        );
    }
    let plan = plan_fix(issues, checks);
    if !plan.trailing && !plan.newline {
        StreamFix::Done(
            FixResult { file_path: path.to_owned(), fixed: false, issues_fixed: Vec::new() },
        )
    } else {
        StreamFix::Rewrite(plan)
    }
}

/// The result for a large file that was written anew: it is fixed, and
/// every issue counts as fixed.
pub fn rewritten(path: &str, issues: &[Issue]) -> (result: FixResult)
    ensures
        result.file_path@ == path@,
        result.fixed,
        issue_views(result.issues_fixed@) == issue_views(issues@),
{
    FixResult { file_path: path.to_owned(), fixed: true, issues_fixed: copy_issues(issues) }
}

/// The text that a file read line by line is written back as. With
/// `plan.trailing` every line loses the whitespace at its end; with
/// `plan.newline` the empty lines at the end go, but for the first line.
/// The lines are joined by line feeds and a last line feed follows, unless
/// there is no line and the end of the file is not repaired.
pub fn fix_streamed_lines(lines: &Vec<String>, plan: &FixPlan) -> (text: String)
    ensures
        text@ == repaired_stream(texts(lines@), *plan),
{
    let ghost first = if plan.trailing {
        trimmed_lines(texts(lines@))
    } else {
        texts(lines@)
    };
    let mut count: usize = lines.len();
    assert(first.take(count as int) =~= first);
    if plan.newline {
        while count > 1 && is_empty_after(lines[count - 1].as_str(), plan.trailing)
            invariant
                0 <= count <= lines@.len(),
                first == (if plan.trailing {
                    trimmed_lines(texts(lines@))
                } else {
                    texts(lines@)
                }),
                without_empty_tail(first) == without_empty_tail(first.take(count as int)),
            decreases count,
        {
            proof {
                let cut = first.take(count as int);
                assert(cut.last() == first[count - 1]);
                assert(cut.drop_last() =~= first.take(count as int - 1));
            }
            count = count - 1;
        }
        proof {
            let cut = first.take(count as int);
            if count > 1 {
                assert(cut.last() == first[count - 1]);
            }
            assert(without_empty_tail(cut) == cut);
        }
    }
    proof {
        assert(first.take(lines@.len() as int) =~= first);
        if plan.trailing {
            assert(trimmed_lines(texts(lines@).take(count as int)) =~= first.take(count as int));
        }
    }
    let mut text = join_lines(lines, count, plan.trailing);
    if plan.newline || count > 0 {
        text.push('\n');
    }
    text
}

/// Whether a line is empty, after trimming if `trim` is set.
pub fn is_empty_after(line: &str, trim: bool) -> (empty: bool)
    ensures
        empty == ((if trim {
            trimmed_end(line@)
        } else {
            line@
        }).len() == 0),
{
    let kept = if trim {
        line.trim_end()
    } else {
        line
    };
    kept.unicode_len() == 0
}

/// What became of one file in a fixing run: the path that was checked, and
/// the result of the fix or the text of the error that stopped it.
#[derive(Debug)]
pub struct FixOutcome {
    pub path: String,
    pub result: Result<FixResult, String>,
}

/// The lines of the report on a fixing run.
#[derive(Debug, Clone)]
pub struct FixReport {
    /// The lines for the standard output.
    pub out: Vec<String>,
    /// The lines for the standard error.
    pub err: Vec<String>,
    /// The number of files that were fixed, or would be.
    pub fixed: usize,
    /// The number of files whose fix failed.
    pub errors: usize,
}

/// Whether the file was fixed, or in a dry run would be.
pub open spec fn is_fixed(outcome: FixOutcome) -> bool {
    outcome.result is Ok && outcome.result->Ok_0.fixed
}

/// The number of outcomes that are fixed files.
pub open spec fn fixed_count(outcomes: Seq<FixOutcome>) -> nat
    decreases outcomes.len(),
{
    if outcomes.len() == 0 {
        0
    } else if is_fixed(outcomes.last()) {
        fixed_count(outcomes.drop_last()) + 1
    } else {
        fixed_count(outcomes.drop_last())
    }
}

/// The number of outcomes that are errors.
pub open spec fn error_count(outcomes: Seq<FixOutcome>) -> nat
    decreases outcomes.len(),
{
    if outcomes.len() == 0 {
        0
    } else if outcomes.last().result is Err {
        error_count(outcomes.drop_last()) + 1
    } else {
        error_count(outcomes.drop_last())
    }
}

/// The line for a fixed file.
pub open spec fn fixed_line(path: Seq<char>, dry_run: bool) -> Seq<char> {
    if dry_run {
        "Would fix: "@ + path
    } else {
        "Fixed: "@ + path
    }
}

/// The lines for the fixed files, in order.
pub open spec fn fixed_lines(outcomes: Seq<FixOutcome>, dry_run: bool) -> Seq<Seq<char>>
    decreases outcomes.len(),
{
    if outcomes.len() == 0 {
        Seq::empty()
    } else if is_fixed(outcomes.last()) {
        fixed_lines(outcomes.drop_last(), dry_run).push(
            fixed_line(outcomes.last().result->Ok_0.file_path@, dry_run),
        )
    } else {
        fixed_lines(outcomes.drop_last(), dry_run)
    }
}

/// The lines for the files whose fix failed, in order: the path that was
/// checked, a colon and a space, the error.
pub open spec fn failed_lines(outcomes: Seq<FixOutcome>) -> Seq<Seq<char>>
    decreases outcomes.len(),
{
    if outcomes.len() == 0 {
        Seq::empty()
    } else if outcomes.last().result is Err {
        failed_lines(outcomes.drop_last()).push(
            outcomes.last().path@ + ": "@ + outcomes.last().result->Err_0@,
        )
    } else {
        failed_lines(outcomes.drop_last())
    }
}

/// The plural ending of a count.
pub open spec fn plural(n: nat) -> Seq<char> {
    if n == 1 {
        ""@
    } else {
        "s"@
    }
}

/// The sentence that counts the fixed files.
pub open spec fn fixed_total(n: nat, dry_run: bool) -> Seq<char> {
    (if dry_run {
        "Would fix "@
    } else {
        "Fixed "@
    }) + decimal(n) + " file"@ + plural(n)
}

/// The sentence that counts the errors.
pub open spec fn error_total(n: nat) -> Seq<char> {
    decimal(n) + " error"@ + plural(n) + " occurred"@
}

/// The lines for the standard output. Only the human format names the
/// files; the count of the fixed files follows after an empty line.
pub open spec fn report_out(
    outcomes: Seq<FixOutcome>,
    human: bool,
    quiet: bool,
    dry_run: bool,
) -> Seq<Seq<char>> {
    if quiet || !human {
        Seq::empty()
    } else if fixed_count(outcomes) > 0 {
        fixed_lines(outcomes, dry_run) + seq![""@, fixed_total(fixed_count(outcomes), dry_run)]
    } else {
        fixed_lines(outcomes, dry_run)
    }
}

/// The lines for the standard error. Only the human format names the
/// files; the count of the errors follows after an empty line, in every
/// format.
pub open spec fn report_err(outcomes: Seq<FixOutcome>, human: bool, quiet: bool) -> Seq<
    Seq<char>,
> {
    if quiet {
        Seq::empty()
    } else {
        (if human {
            failed_lines(outcomes)
        } else {
            Seq::empty()
        }) + (if error_count(outcomes) > 0 {
            seq![""@, error_total(error_count(outcomes))]
        } else {
            Seq::empty()
        })
    }
}

/// The report on a fixing run: what is written to the standard output and
/// to the standard error, and the two counts. A quiet run writes nothing.
pub fn fix_report(outcomes: &[FixOutcome], human: bool, quiet: bool, dry_run: bool) -> (report:
    FixReport)
    ensures
        texts(report.out@) == report_out(outcomes@, human, quiet, dry_run),
        texts(report.err@) == report_err(outcomes@, human, quiet),
        report.fixed == fixed_count(outcomes@),
        report.errors == error_count(outcomes@),
{
    let mut out: Vec<String> = Vec::new();
    let mut err: Vec<String> = Vec::new();
    let mut fixed: usize = 0;
    let mut errors: usize = 0;
    let mut i: usize = 0;
    let names = human && !quiet;
    assert(outcomes@.take(0) =~= Seq::<FixOutcome>::empty());
    assert(texts(out@) =~= Seq::<Seq<char>>::empty());
    assert(texts(err@) =~= Seq::<Seq<char>>::empty());
    while i < outcomes.len()
        invariant
            0 <= i <= outcomes@.len(),
            names == (human && !quiet),
            fixed == fixed_count(outcomes@.take(i as int)),
            errors == error_count(outcomes@.take(i as int)),
            fixed <= i,
            errors <= i,
            texts(out@) == (if names {
                fixed_lines(outcomes@.take(i as int), dry_run)
            } else {
                Seq::empty()
            }),
            texts(err@) == (if names {
                failed_lines(outcomes@.take(i as int))
            } else {
                Seq::empty()
            }),
        decreases outcomes@.len() - i,
    {
        proof {
            assert(outcomes@.take(i as int + 1).drop_last() =~= outcomes@.take(i as int));
            assert(outcomes@.take(i as int + 1).last() == outcomes@[i as int]);
        }
        let outcome = &outcomes[i];
        match &outcome.result {
            Ok(fix) => {
                if fix.fixed {
                    fixed = fixed + 1;
                    if names {
                        let mut line = if dry_run {
                            "Would fix: ".to_owned()
                        } else {
                            "Fixed: ".to_owned()
                        };
                        line.append(fix.file_path.as_str());
                        proof {
                            lemma_texts_push(out@, line);
                        }
                        out.push(line);
                    }
                }
            },
            Err(cause) => {
                errors = errors + 1;
                if names {
                    let mut line = outcome.path.clone();
                    line.append(": ");
                    line.append(cause.as_str());
                    proof {
                        lemma_texts_push(err@, line);
                    }
                    err.push(line);
                }
            },
        }
        i = i + 1;
    }
    assert(outcomes@.take(outcomes@.len() as int) =~= outcomes@);
    if names && fixed > 0 {
        let ghost before = texts(out@);
        let mut line = if dry_run {
            "Would fix ".to_owned()
        } else {
            "Fixed ".to_owned()
        };
        push_decimal(&mut line, fixed as u128);
        line.append(" file");
        if fixed != 1 {
            line.append("s");
        }
        proof {
            reveal_strlit("");
            assert(line@ =~= fixed_total(fixed as nat, dry_run));
        }
        let blank = String::new();
        proof {
            lemma_texts_push(out@, blank);
            lemma_texts_push(out@.push(blank), line);
            reveal_strlit("");
            assert(blank@ =~= ""@);
            assert(before.push(blank@).push(line@) =~= before + seq![""@, line@]);
        }
        out.push(blank);
        out.push(line);
    }
    if !quiet && errors > 0 {
        let ghost before = texts(err@);
        let mut line = String::new();
        push_decimal(&mut line, errors as u128);
        line.append(" error");
        if errors != 1 {
            line.append("s");
        }
        line.append(" occurred");
        proof {
            reveal_strlit("");
            assert(line@ =~= error_total(errors as nat));
        }
        let blank = String::new();
        proof {
            lemma_texts_push(err@, blank);
            lemma_texts_push(err@.push(blank), line);
            reveal_strlit("");
            assert(blank@ =~= ""@);
            assert(before.push(blank@).push(line@) =~= before + seq![""@, line@]);
        }
        err.push(blank);
        err.push(line);
    } else {
        assert(texts(err@) + Seq::<Seq<char>>::empty() =~= texts(err@));
    }
    FixReport { out, err, fixed, errors }
}

} // verus!
