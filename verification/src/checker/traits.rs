//! The two interfaces of a checker, for callers that bring their own.

use super::Issue;
use crate::config::Config;
use vstd::prelude::*;

verus! {

/// Checks single lines, and the end of a text.
pub trait LineChecker {
    /// The trailing-whitespace issue of one line, if it has one.
    fn check_line(&self, line: &str, line_number: usize) -> Option<Issue>;

    /// The newline issue of a text, if it has one.
    fn check_final_newline(&self, content: &str) -> Option<Issue>;

    /// The configuration in use.
    fn config(&self) -> &Config;
}

/// Checks a whole text.
pub trait ContentChecker {
    /// Every issue of the text.
    fn check_content(&self, content: &str) -> Vec<Issue>;

    /// Every issue of a text that arrives line by line.
    fn check_lines<I>(&self, lines: I) -> Vec<Issue> where I: Iterator<Item = String>;
}

} // verus!
