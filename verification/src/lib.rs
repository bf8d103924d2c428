//! Whitespace hygiene for text files: which files to look at, and what is
//! wrong with the end of their lines and the end of the file.
//!
//! The library decides and computes; it never touches a disk, a terminal or
//! another process. A caller gives it what it read and does what it is told.
//!
//! - `checker`: the two rules (trailing whitespace, newline at the end of
//!   the file), applied to a text in memory or to a file read line by line,
//!   and the proof that both ways agree.
//! - `discovery`: which candidates become files to check: the extension
//!   policy, the ignore patterns, hidden files, no file twice.
//! - `git`: narrowing the files to those changed between two revisions.
//! - `fixer`: the text that a file with issues should hold instead.
//! - `reporter`: the report for people, for GitHub Actions and as data.
//! - `config`, `cli`: the settings of a run, as plain data.
//! - `text`: small tools on strings.
//!
//! Every function is verified against its contract. What is believed
//! without proof is little and is marked where it stands: the glob patterns
//! of the `glob` crate (`discovery::glob_match`) and a few functions of the
//! standard library on strings (the head of `text`).
//!
//! Files and outputs are reached through traits. A reader that holds its
//! files itself (`checker::MemoryFiles`) and an output that keeps what is
//! written to it (`reporter::BufferOutput`) say in the contracts what they
//! will answer and what they took; for them the result of a check and the
//! text of a report are proved to the letter. Of a reader of a disk and of
//! a terminal nothing of the kind can be known, and nothing is claimed.

pub mod checker;
pub mod cli;
pub mod config;
pub mod discovery;
pub mod fixer;
pub mod git;
pub mod reporter;
pub mod text;

pub use checker::{
    check_newline_ending, check_trailing_spaces, CheckResult, CheckerCore, ContentChecker,
    FileChecker, FileMetadata, FileReader, Issue, IssueType, LineChecker, LineEvent, LineSource,
    MemoryFiles, StreamScan,
};
pub use cli::{apply_check_flags, exit_code, CliArgs, OutputFormat};
pub use config::{default_true, CheckConfig, Config};
pub use discovery::{
    is_hidden_file, should_check_file, Discoverer, DiscoveryResult, Entry, GitRangeInfo,
    InputPlan, Origin, WalkAction,
};
pub use fixer::{apply_fixes, fix_newline_ending, fix_trailing_spaces, FixResult};
pub use reporter::{
    BufferOutput, Color, ColoredOutput, GitHubReporter, HumanReporter, JsonReporter, Output,
    Piece, Reporter, ReporterWithOutput,
};
