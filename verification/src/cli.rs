//! The command line, as plain data. Parsing it is left to the program.

use crate::checker::CheckResult;
use crate::config::Config;
use crate::reporter::numbers::{decimal, push_decimal};
use vstd::prelude::*;
use vstd::string::StringExecFns;

verus! {

/// The exit code of a run in which no file has an issue.
pub const EXIT_CLEAN: i32 = 0;

/// The exit code of a run in which at least one file has an issue.
pub const EXIT_ISSUES: i32 = 1;

/// The exit code of a run whose discovery failed.
pub const EXIT_DISCOVERY_FAILED: i32 = 3;

/// The exit code of a run whose configuration could not be loaded.
pub const EXIT_CONFIG_FAILED: i32 = 4;

/// How the results are written out.
#[derive(Debug, Clone, Copy, PartialEq, Eq, Structural)]
pub enum OutputFormat {
    Human,
    Json,
    GitHub,
}

/// What the user asked for.
#[derive(Debug, Clone)]
pub struct CliArgs {
    /// Files, directories or glob patterns to check.
    pub files: Vec<String>,
    /// Read the inputs from standard input, one per line, instead of `files`.
    pub stdin: bool,
    /// Walk into subdirectories.
    pub recursive: bool,
    pub format: OutputFormat,
    pub quiet: bool,
    pub verbose: bool,
    pub no_color: bool,
    /// The path of a configuration file.
    pub config: Option<String>,
    /// Ignore patterns; if any is given, they replace those of the configuration.
    pub ignore: Vec<String>,
    /// Extensions to check; if given, they replace those of the configuration.
    pub extensions: Option<Vec<String>>,
    pub no_newline_check: bool,
    pub no_trailing_space: bool,
    pub fix: bool,
    pub dry_run: bool,
    /// Check only files changed since this revision.
    pub from: Option<String>,
    /// Check only files changed up to this revision; the current head if absent.
    pub to: Option<String>,
    /// Leave out files and directories whose name begins with a dot.
    pub no_hidden: bool,
}

/// The line that opens a run, if it has one. Only the human format of a
/// run that is not quiet and has more than one file says what it is about
/// to do: to check, to fix, or to check in a dry run of fixing.
pub open spec fn opening_line(args: CliArgs, files: nat) -> Option<Seq<char>> {
    if args.quiet || args.format != OutputFormat::Human || files <= 1 {
        None
    } else if !args.fix {
        Some("Checking "@ + decimal(files) + " files..."@)
    } else if args.dry_run {
        Some("Checking "@ + decimal(files) + " files (dry run)..."@)
    } else {
        Some("Fixing "@ + decimal(files) + " files..."@)
    }
}

/// The line that opens a run over `files` files, if it has one.
pub fn opening(args: &CliArgs, files: usize) -> (line: Option<String>)
    ensures
        line is Some <==> opening_line(*args, files as nat) is Some,
        line is Some ==> line->0@ == opening_line(*args, files as nat)->0,
{
    let human = match args.format {
        OutputFormat::Human => true,
        _ => false,
    };
    if args.quiet || !human || files <= 1 {
        return None;
    }
    let mut line = if args.fix && !args.dry_run {
        "Fixing ".to_owned()
    } else {
        "Checking ".to_owned()
    };
    push_decimal(&mut line, files as u128);
    if args.fix && args.dry_run {
        line.append(" files (dry run)...");
    } else {
        line.append(" files...");
    }
    Some(line)
}

/// Whether a run shows a progress bar: only the human format of a run that
/// is not quiet does, and only for more than ten files.
pub fn shows_progress(args: &CliArgs, files: usize) -> (shown: bool)
    ensures
        shown == (files > 10 && !args.quiet && args.format == OutputFormat::Human),
{
    let human = match args.format {
        OutputFormat::Human => true,
        _ => false,
    };
    files > 10 && !args.quiet && human
}

/// Whether the results are reported: always, but for a quiet run that
/// found no issue.
pub fn reports_results(quiet: bool, code: i32) -> (reported: bool)
    ensures
        reported == (!quiet || code == EXIT_ISSUES),
{
    !quiet || code == EXIT_ISSUES
}

/// Whether some result has an issue.
pub open spec fn any_issues(results: Seq<CheckResult>) -> bool {
    exists|i: int| 0 <= i < results.len() && (#[trigger] results[i]).issues@.len() > 0
}

/// The exit code of a check: 1 if some file has an issue, else 0. A file
/// that could not be read does not by itself make the run fail.
pub fn exit_code(results: &[CheckResult]) -> (code: i32)
    ensures
        code == (if any_issues(results@) {
            EXIT_ISSUES
        } else {
            EXIT_CLEAN
        }),
{
    let mut i: usize = 0;
    while i < results.len()
        invariant
            0 <= i <= results@.len(),
            forall|j: int| 0 <= j < i ==> (#[trigger] results@[j]).issues@.len() == 0,
        decreases results@.len() - i,
    {
        if results[i].issues.len() > 0 {
            return EXIT_ISSUES;
        }
        i = i + 1;
    }
    EXIT_CLEAN
}

/// Switches off the rules that the command line switches off. The command
/// line can switch a rule off, never on.
pub fn apply_check_flags(config: &mut Config, args: &CliArgs)
    ensures
        final(config).checks.newline_ending == (old(config).checks.newline_ending
            && !args.no_newline_check),
        final(config).checks.trailing_spaces == (old(config).checks.trailing_spaces
            && !args.no_trailing_space),
        final(config).ignore_patterns == old(config).ignore_patterns,
        final(config).file_extensions == old(config).file_extensions,
{
    if args.no_newline_check {
        config.checks.newline_ending = false;
    }
    if args.no_trailing_space {
        config.checks.trailing_spaces = false;
    }
}

} // verus!
