//! Narrowing a check to the files that changed between two revisions. The
//! library decides what to ask of git and what to make of the answers;
//! running git is left to the caller.

use crate::checker::rules::lines_of;
use crate::discovery::paths::{join_path, joined};
use crate::discovery::{Entry, GitRangeInfo};
use crate::text::{
    chars_of, copy_texts, lemma_texts_push, split_lines, string_of, texts, trimmed,
};
use vstd::prelude::*;
use vstd::string::StringExecFns;

verus! {

/// Why a git range could not be had. Any of these ends discovery; no part
/// of a file list is handed out then.
#[derive(Debug, Clone, PartialEq)]
pub enum GitError {
    /// The working directory is not under version control.
    NotARepository,
    /// The reference does not resolve to a commit.
    UnresolvableReference(String),
    /// The list of changed files could not be had; the text says why.
    DiffFailed(String),
}

/// The text of an error.
pub open spec fn error_text(error: GitError) -> Seq<char> {
    match error {
        GitError::NotARepository => "not a git repository"@,
        GitError::UnresolvableReference(reference) => "Invalid git reference: "@ + reference@,
        GitError::DiffFailed(cause) => "Failed to get changed files: "@ + cause@,
    }
}

impl GitError {
    /// The error in words.
    pub fn message(&self) -> (text: String)
        ensures
            text@ == error_text(*self),
    {
        match self {
            GitError::NotARepository => "not a git repository".to_owned(),
            GitError::UnresolvableReference(reference) => {
                let mut text = "Invalid git reference: ".to_owned();
                text.append(reference.as_str());
                text
            },
            GitError::DiffFailed(cause) => {
                let mut text = "Failed to get changed files: ".to_owned();
                text.append(cause.as_str());
                text
            },
        }
    }
}

/// Why a discovery failed as a whole. No part of a file list is handed out
/// with any of these.
#[derive(Debug, Clone, PartialEq)]
pub enum DiscoveryError {
    /// The git range could not be had.
    Git(GitError),
    /// Reading the list of inputs from standard input, or running git,
    /// failed; the text says why.
    Io(String),
}

/// The text of a discovery error.
pub open spec fn discovery_error_text(error: DiscoveryError) -> Seq<char> {
    match error {
        DiscoveryError::Git(inner) => error_text(inner),
        DiscoveryError::Io(cause) => cause@,
    }
}

impl DiscoveryError {
    /// The error in words.
    pub fn message(&self) -> (text: String)
        ensures
            text@ == discovery_error_text(*self),
    {
        match self {
            DiscoveryError::Git(inner) => inner.message(),
            DiscoveryError::Io(cause) => cause.clone(),
        }
    }
}

/// A question to git.
#[derive(Debug, Clone, PartialEq)]
pub enum GitRequest {
    /// Is the working directory inside a work tree?
    InsideWorkTree,
    /// Which commit does this reference name?
    Resolve(String),
    /// Which files differ between these two commits?
    ChangedFiles { from: String, to: String },
    /// Nothing more: the range is ready, or it has failed.
    Finished,
}

/// An answer of git.
#[derive(Debug)]
pub enum GitAnswer {
    /// Whether the working directory is inside a work tree.
    WorkTree(bool),
    /// The commit that the reference names, or nothing if it names none.
    Commit(Option<String>),
    /// The files that differ, each with what the disk says of it, or the
    /// reason why the list could not be had.
    Changed(Result<Vec<Entry>, String>),
}

/// How far the resolution of a range has come.
#[derive(Debug, Clone, Copy, PartialEq, Eq, Structural)]
pub enum GitStage {
    /// Nothing was asked yet.
    Start,
    /// Whether this is a repository was asked.
    Probing,
    /// The commit of the first reference was asked.
    ResolvingFrom,
    /// The commit of the second reference was asked; the first is resolved.
    ResolvingTo,
    /// The changed files were asked; both commits are resolved.
    Diffing,
    /// The range is known.
    Ready,
    /// The range has failed.
    Failed,
}

/// The reference a range ends at: the one given, or the current head.
pub open spec fn target_of(to: Option<Seq<char>>) -> Seq<char> {
    match to {
        Some(reference) => reference,
        None => "HEAD"@,
    }
}

/// The paths of the entries that are regular files, in order.
pub open spec fn regular_files(entries: Seq<Entry>) -> Seq<Seq<char>>
    decreases entries.len(),
{
    if entries.len() == 0 {
        Seq::empty()
    } else if entries.last().is_file {
        regular_files(entries.drop_last()).push(entries.last().path@)
    } else {
        regular_files(entries.drop_last())
    }
}

/// The lines that are not empty, each as a path below `base`, in order.
pub open spec fn listed_paths(base: Seq<char>, lines: Seq<Seq<char>>) -> Seq<Seq<char>>
    decreases lines.len(),
{
    if lines.len() == 0 {
        Seq::empty()
    } else if lines.last().len() == 0 {
        listed_paths(base, lines.drop_last())
    } else {
        listed_paths(base, lines.drop_last()).push(joined(base, lines.last()))
    }
}

/// The paths that a listing of changed files names, one per line, each
/// below the repository. Empty lines name nothing.
pub fn parse_changed_files(listing: &str, repository: &str) -> (paths: Vec<String>)
    ensures
        texts(paths@) == listed_paths(repository@, lines_of(listing@)),
{
    let lines = split_lines(listing);
    let mut paths: Vec<String> = Vec::new();
    let mut i: usize = 0;
    let ghost all = texts(lines@);
    assert(all.take(0) =~= Seq::<Seq<char>>::empty());
    assert(texts(paths@) =~= Seq::<Seq<char>>::empty());
    while i < lines.len()
        invariant
            0 <= i <= lines@.len(),
            all == texts(lines@),
            texts(paths@) == listed_paths(repository@, all.take(i as int)),
        decreases lines@.len() - i,
    {
        proof {
            assert(all.take(i as int + 1).drop_last() =~= all.take(i as int));
            assert(all.take(i as int + 1).last() == lines@[i as int]@);
        }
        let line = lines[i].as_str();
        if line.unicode_len() > 0 {
            let full = join_path(repository, line);
            proof {
                lemma_texts_push(paths@, full);
            }
            paths.push(full);
        }
        i = i + 1;
    }
    assert(all.take(lines@.len() as int) =~= all);
    paths
}

/// The commit that git printed for a reference: its output without the
/// whitespace around it.
pub fn parse_commit_hash(output: &str) -> (hash: String)
    ensures
        hash@ == trimmed(output@),
{
    output.trim().to_owned()
}

/// The start of a commit hash that is shown to people: its first seven
/// characters, or all of it if it is shorter.
pub fn short_hash(hash: &str) -> (short: String)
    ensures
        short@ == hash@.take(if hash@.len() < 7 {
            hash@.len() as int
        } else {
            7
        }),
{
    let chars = chars_of(hash);
    let n: usize = if chars.len() < 7 {
        chars.len()
    } else {
        7
    };
    let short = string_of(&chars, 0, n);
    assert(chars@.subrange(0, n as int) =~= hash@.take(n as int));
    short
}

/// The paths of the entries that are regular files, in order.
pub fn existing_files(entries: &Vec<Entry>) -> (paths: Vec<String>)
    ensures
        texts(paths@) == regular_files(entries@),
{
    let mut paths: Vec<String> = Vec::new();
    let mut i: usize = 0;
    assert(entries@.take(0) =~= Seq::<Entry>::empty());
    assert(texts(paths@) =~= Seq::<Seq<char>>::empty());
    while i < entries.len()
        invariant
            0 <= i <= entries@.len(),
            texts(paths@) == regular_files(entries@.take(i as int)),
        decreases entries@.len() - i,
    {
        proof {
            assert(entries@.take(i as int + 1).drop_last() =~= entries@.take(i as int));
            assert(entries@.take(i as int + 1).last() == entries@[i as int]);
        }
        if entries[i].is_file {
            let path = entries[i].path.clone();
            proof {
                lemma_texts_push(paths@, path);
            }
            paths.push(path);
        }
        i = i + 1;
    }
    assert(entries@.take(entries@.len() as int) =~= entries@);
    paths
}

/// The state of a range as a mathematical value.
pub struct RangeView {
    /// How far the resolution has come.
    pub stage: GitStage,
    /// The reference the range starts at.
    pub from: Seq<char>,
    /// The reference the range ends at.
    pub to: Seq<char>,
    /// The commit of the first reference, once it is resolved.
    pub from_commit: Seq<char>,
    /// The commit of the second reference, once it is resolved.
    pub to_commit: Seq<char>,
    /// The changed files that exist as regular files, once they are known.
    pub changed: Seq<Seq<char>>,
    /// The text of the error, once the range has failed.
    pub error: Seq<char>,
}

/// The state that an answer leads to.
///
/// Outside a repository the range fails. A reference that names no commit
/// fails the range. The second reference is resolved after the first. Of
/// the changed files only those that exist as regular files are kept. An
/// answer that does not fit the stage changes nothing.
pub open spec fn stepped(before: RangeView, answer: GitAnswer) -> RangeView {
    match (before.stage, answer) {
        (GitStage::Probing, GitAnswer::WorkTree(inside)) => if inside {
            RangeView { stage: GitStage::ResolvingFrom, ..before }
        } else {
            RangeView {
                stage: GitStage::Failed,
                error: error_text(GitError::NotARepository),
                ..before
            }
        },
        (GitStage::ResolvingFrom, GitAnswer::Commit(found)) => match found {
            Some(commit) => RangeView {
                stage: GitStage::ResolvingTo,
                from_commit: commit@,
                ..before
            },
            None => RangeView {
                stage: GitStage::Failed,
                error: "Invalid git reference: "@ + before.from,
                ..before
            },
        },
        (GitStage::ResolvingTo, GitAnswer::Commit(found)) => match found {
            Some(commit) => RangeView { stage: GitStage::Diffing, to_commit: commit@, ..before },
            None => RangeView {
                stage: GitStage::Failed,
                error: "Invalid git reference: "@ + before.to,
                ..before
            },
        },
        (GitStage::Diffing, GitAnswer::Changed(listed)) => match listed {
            Ok(entries) => RangeView {
                stage: GitStage::Ready,
                changed: regular_files(entries@),
                ..before
            },
            Err(cause) => RangeView {
                stage: GitStage::Failed,
                error: "Failed to get changed files: "@ + cause@,
                ..before
            },
        },
        _ => before,
    }
}

/// Whether the request is the question of the stage: in a repository probe
/// the work tree; the first reference, then the second, each by its text;
/// the changed files by the two commits, not by the references; and
/// nothing at the start and at the end.
pub open spec fn asks(state: RangeView, request: GitRequest) -> bool {
    match state.stage {
        GitStage::Start | GitStage::Ready | GitStage::Failed => request is Finished,
        GitStage::Probing => request is InsideWorkTree,
        GitStage::ResolvingFrom => request is Resolve && request->Resolve_0@ == state.from,
        GitStage::ResolvingTo => request is Resolve && request->Resolve_0@ == state.to,
        GitStage::Diffing => request is ChangedFiles && request->from@ == state.from_commit
            && request->to@ == state.to_commit,
    }
}

/// What a filter hands out at its end: the range once it is ready, the
/// error once it has failed, nothing while a question is open.
pub open spec fn shows_outcome(
    state: RangeView,
    result: Option<Result<GitRangeInfo, GitError>>,
) -> bool {
    match state.stage {
        GitStage::Ready => {
            &&& result is Some
            &&& result->0 is Ok
            &&& result->0->Ok_0.from@ == state.from_commit
            &&& result->0->Ok_0.to@ == state.to_commit
            &&& texts(result->0->Ok_0.changed_files@) == state.changed
        },
        GitStage::Failed => {
            &&& result is Some
            &&& result->0 is Err
            &&& error_text(result->0->Err_0) == state.error
        },
        _ => result is None,
    }
}

/// The resolution of a git range, one question at a time. Both references
/// are resolved to commits before the changed files are asked for, so that
/// a branch that moves meanwhile does not move the range.
pub struct GitRangeFilter {
    from: String,
    to: String,
    stage: GitStage,
    from_commit: String,
    to_commit: String,
    changed: Vec<String>,
    error: Option<GitError>,
}

impl View for GitRangeFilter {
    type V = RangeView;

    closed spec fn view(&self) -> RangeView {
        RangeView {
            stage: self.stage,
            from: self.from@,
            to: self.to@,
            from_commit: self.from_commit@,
            to_commit: self.to_commit@,
            changed: texts(self.changed@),
            error: match self.error {
                Some(error) => error_text(error),
                None => Seq::empty(),
            },
        }
    }
}

impl GitRangeFilter {
    /// A failed range has its error.
    pub closed spec fn wf(&self) -> bool {
        self.stage == GitStage::Failed ==> self.error is Some
    }

    /// A range from `from` to `to`, or to the current head if `to` is absent.
    pub fn new(from: &str, to: Option<&str>) -> (filter: Self)
        ensures
            filter.wf(),
            filter@.stage == GitStage::Start,
            filter@.from == from@,
            filter@.to == target_of(
                match to {
                    Some(reference) => Some(reference@),
                    None => None,
                },
            ),
    {
        let target = match to {
            Some(reference) => reference.to_owned(),
            None => "HEAD".to_owned(),
        };
        GitRangeFilter {
            from: from.to_owned(),
            to: target,
            stage: GitStage::Start,
            from_commit: String::new(),
            to_commit: String::new(),
            changed: Vec::new(),
            error: None,
        }
    }

    /// The question that the current stage waits on.
    pub fn pending(&self) -> (request: GitRequest)
        ensures
            asks(self@, request),
    {
        match self.stage {
            GitStage::Start | GitStage::Ready | GitStage::Failed => GitRequest::Finished,
            GitStage::Probing => GitRequest::InsideWorkTree,
            GitStage::ResolvingFrom => GitRequest::Resolve(self.from.clone()),
            GitStage::ResolvingTo => GitRequest::Resolve(self.to.clone()),
            GitStage::Diffing => GitRequest::ChangedFiles {
                from: self.from_commit.clone(),
                to: self.to_commit.clone(),
            },
        }
    }

    /// Begins the resolution: the first question is whether the working
    /// directory is a repository at all. A filter that has begun is left
    /// as it is, and its open question is asked again.
    pub fn start(&mut self) -> (request: GitRequest)
        requires
            old(self).wf(),
        ensures
            final(self).wf(),
            final(self)@ == (if old(self)@.stage == GitStage::Start {
                RangeView { stage: GitStage::Probing, ..old(self)@ }
            } else {
                old(self)@
            }),
            asks(final(self)@, request),
    {
        if self.stage == GitStage::Start {
            self.stage = GitStage::Probing;
        }
        self.pending()
    }

    /// Takes an answer and gives the next question. The state moves as
    /// `stepped` says; an answer that does not fit the question asked
    /// changes nothing, and the question is asked again.
    pub fn step(&mut self, answer: GitAnswer) -> (request: GitRequest)
        requires
            old(self).wf(),
        ensures
            final(self).wf(),
            final(self)@ == stepped(old(self)@, answer),
            asks(final(self)@, request),
    {
        match (self.stage, answer) {
            (GitStage::Probing, GitAnswer::WorkTree(inside)) => {
                if inside {
                    self.stage = GitStage::ResolvingFrom;
                } else {
                    self.error = Some(GitError::NotARepository);
                    self.stage = GitStage::Failed;
                }
            },
            (GitStage::ResolvingFrom, GitAnswer::Commit(found)) => {
                match found {
                    Some(commit) => {
                        self.from_commit = commit;
                        self.stage = GitStage::ResolvingTo;
                    },
                    None => {
                        self.error = Some(GitError::UnresolvableReference(self.from.clone()));
                        self.stage = GitStage::Failed;
                    },
                }
            },
            (GitStage::ResolvingTo, GitAnswer::Commit(found)) => {
                match found {
                    Some(commit) => {
                        self.to_commit = commit;
                        self.stage = GitStage::Diffing;
                    },
                    None => {
                        self.error = Some(GitError::UnresolvableReference(self.to.clone()));
                        self.stage = GitStage::Failed;
                    },
                }
            },
            (GitStage::Diffing, GitAnswer::Changed(listed)) => {
                match listed {
                    Ok(entries) => {
                        self.changed = existing_files(&entries);
                        self.stage = GitStage::Ready;
                    },
                    Err(cause) => {
                        self.error = Some(GitError::DiffFailed(cause));
                        self.stage = GitStage::Failed;
                    },
                }
            },
            _ => {},
        }
        self.pending()
    }

    /// The range, if it is known; the error, if it has failed; nothing
    /// while a question is open.
    pub fn outcome(&self) -> (result: Option<Result<GitRangeInfo, GitError>>)
        requires
            self.wf(),
        ensures
            shows_outcome(self@, result),
    {
        match self.stage {
            GitStage::Ready => Some(
                Ok(
                    GitRangeInfo {
                        from: self.from_commit.clone(),
                        to: self.to_commit.clone(),
                        changed_files: copy_texts(&self.changed),
                    },
                ),
            ),
            GitStage::Failed => match &self.error {
                Some(error) => Some(Err(copy_error(error))),
                None => None,
            },
            _ => None,
        }
    }
}

/// A copy of an error.
pub fn copy_error(error: &GitError) -> (copy: GitError)
    ensures
        error_text(copy) == error_text(*error),
{
    match error {
        GitError::NotARepository => GitError::NotARepository,
        GitError::UnresolvableReference(reference) => GitError::UnresolvableReference(
            reference.clone(),
        ),
        GitError::DiffFailed(cause) => GitError::DiffFailed(cause.clone()),
    }
}

} // verus!
