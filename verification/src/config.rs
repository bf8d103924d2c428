//! Configuration shared, read-only, by discovery and checking.

use crate::discovery::paths::{
    components, is_absolute, join_path, joined, render, render_parts, split_path, starts_at_root,
};
use crate::text::texts;
use vstd::prelude::*;
use vstd::string::StringExecFns;

verus! {

/// Which of the two whitespace rules are switched on.
#[derive(Debug, Clone, Copy)]
pub struct CheckConfig {
    /// Report a missing or a duplicated newline at the end of a file.
    pub newline_ending: bool,
    /// Report lines that end in spaces or tabs.
    pub trailing_spaces: bool,
}

/// The settings of one run. Nothing changes them once discovery has begun.
#[derive(Debug, Clone)]
pub struct Config {
    pub checks: CheckConfig,
    /// Glob patterns of paths to leave out, in the order given.
    pub ignore_patterns: Vec<String>,
    /// Extensions to check; empty means that every extension is allowed.
    pub file_extensions: Vec<String>,
}

impl Default for CheckConfig {
    /// Both rules are on unless the user switches one off.
    fn default() -> (c: Self)
        ensures
            c.newline_ending,
            c.trailing_spaces,
    {
        CheckConfig { newline_ending: true, trailing_spaces: true }
    }
}

impl Default for Config {
    /// Both rules on, nothing ignored, every extension allowed.
    fn default() -> (c: Self)
        ensures
            c.checks.newline_ending,
            c.checks.trailing_spaces,
            c.ignore_patterns@.len() == 0,
            c.file_extensions@.len() == 0,
    {
        Config {
            checks: CheckConfig { newline_ending: true, trailing_spaces: true },
            ignore_patterns: Vec::new(),
            file_extensions: Vec::new(),
        }
    }
}

/// The value a rule's switch takes when a configuration file does not name it.
pub fn default_true() -> (b: bool)
    ensures
        b,
{
    true
}

/// The name of the configuration file that is looked for in the working
/// directory and in the directories above it.
pub open spec fn config_file_name() -> Seq<char> {
    ".lineguardrc"@
}

/// The path of the configuration file that a directory would hold.
pub open spec fn candidate_in(dir: Seq<char>) -> Seq<char> {
    joined(dir, config_file_name())
}

/// The directory above a directory: the path without its last component.
/// A path without components has none above it.
pub open spec fn parent_of(dir: Seq<char>) -> Option<Seq<char>> {
    let parts = components(dir);
    if parts.len() == 0 {
        None
    } else {
        Some(render(is_absolute(dir), parts.drop_last()))
    }
}

/// The path of the configuration file that a directory would hold.
pub fn config_candidate(dir: &str) -> (path: String)
    ensures
        path@ == candidate_in(dir@),
{
    join_path(dir, ".lineguardrc")
}

/// The directory above a directory, if there is one.
pub fn parent_dir(dir: &str) -> (parent: Option<String>)
    ensures
        parent is Some <==> parent_of(dir@) is Some,
        parent is Some ==> parent->0@ == parent_of(dir@)->0,
{
    let mut parts = split_path(dir);
    let ghost all = texts(parts@);
    if parts.len() == 0 {
        return None;
    }
    parts.pop();
    assert(texts(parts@) =~= all.drop_last());
    Some(render_parts(starts_at_root(dir), &parts))
}

/// What to do next in the search for a configuration file.
#[derive(Debug, Clone, PartialEq)]
pub enum SearchStep {
    /// The file at this path is the configuration.
    Found(String),
    /// Look whether the file at this path exists.
    Look(String),
    /// No directory is left: the defaults apply.
    Exhausted,
}

/// The step of the search that follows on a look into `dir`: if the
/// candidate there exists it is found; else the search goes on in the
/// directory above, and ends where there is none.
pub fn search_step(dir: &str, exists: bool) -> (step: SearchStep)
    ensures
        exists ==> step is Found && step->Found_0@ == candidate_in(dir@),
        !exists && parent_of(dir@) is Some ==> step is Look && step->Look_0@ == parent_of(
            dir@,
        )->0,
        !exists && parent_of(dir@) is None ==> step is Exhausted,
{
    if exists {
        SearchStep::Found(config_candidate(dir))
    } else {
        match parent_dir(dir) {
            Some(parent) => SearchStep::Look(parent),
            None => SearchStep::Exhausted,
        }
    }
}

/// The text of the error for a configuration file that was named and does
/// not exist.
pub fn missing_config_text(path: &str) -> (text: String)
    ensures
        text@ == "Configuration file not found: "@ + path@,
{
    let mut text = "Configuration file not found: ".to_owned();
    text.append(path);
    text
}

} // verus!
