//! Glob patterns. Compiling a pattern and matching a text against it are
//! left to the `glob` crate; what is stated of them here is believed, not
//! proved.
//!
//! The crate reads no disk, clock or environment when it compiles or
//! matches. Which characters part the components of a path it takes from
//! the platform it is built for, so the three functions named below are
//! those of that platform.

use vstd::prelude::*;

verus! {

/// A compiled pattern of the `glob` crate. Nothing inside it is visible here.
#[verifier::external_type_specification]
#[verifier::external_body]
pub struct ExPattern(glob::Pattern);

/// The error of the `glob` crate for a pattern that does not compile.
#[verifier::external_type_specification]
#[verifier::external_body]
pub struct ExPatternError(glob::PatternError);

/// Whether `glob::Pattern::new` accepts the text as a pattern.
pub uninterp spec fn glob_compiles(source: Seq<char>) -> bool;

/// The text a compiled pattern was made from, as `glob::Pattern::as_str` gives it.
pub uninterp spec fn pattern_source(pattern: glob::Pattern) -> Seq<char>;

/// Whether the pattern compiled from `source` matches the whole of `text`
/// under the default options of `glob::Pattern::matches`.
pub uninterp spec fn glob_matches(source: Seq<char>, text: Seq<char>) -> bool;

/// `glob::Pattern::new` compiles a pattern. Whether it succeeds depends on
/// the pattern's text alone, and the compiled pattern keeps that text.
pub assume_specification[ glob::Pattern::new ](pattern: &str) -> (compiled: Result<
    glob::Pattern,
    glob::PatternError,
>)
    ensures
        compiled is Ok <==> glob_compiles(pattern@),
        compiled is Ok ==> pattern_source(compiled->Ok_0) == pattern@,
;

/// `glob::Pattern::as_str` gives back the text the pattern was compiled from.
pub assume_specification<'a>[ glob::Pattern::as_str ](pattern: &'a glob::Pattern) -> (source:
    &'a str)
    ensures
        source@ == pattern_source(*pattern),
;

/// `glob::Pattern::matches` says whether the pattern matches the text. The
/// answer depends on the pattern's text and on the text alone.
pub assume_specification[ glob::Pattern::matches ](pattern: &glob::Pattern, text: &str) -> (hit:
    bool)
    ensures
        hit == glob_matches(pattern_source(*pattern), text@),
;

} // verus!
