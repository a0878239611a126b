//! Glob patterns: how search roots and preview patterns are made ready, and
//! what the filesystem answers when one is expanded.

use crate::paths::{chars_of, join, joined};
use crate::walk::{failed_at, failed_why, lossy_text_of, pattern_fault, text_of, walk};
use std::path::PathBuf;
use vstd::prelude::*;

verus! {

/// One step of the enumeration of a pattern's matches.
#[derive(Debug, Clone, PartialEq, Eq)]
pub enum Found {
    /// A path that matches.
    Path(String),
    /// A path that matches and is not valid Unicode, with every invalid part
    /// replaced by U+FFFD.
    Garbled(String),
    /// A place that could not be read, and the system's reason.
    Failed { path: String, reason: String },
}

/// A `Found` as plain text.
pub ghost enum FoundView {
    Path(Seq<char>),
    Garbled(Seq<char>),
    Failed { path: Seq<char>, reason: Seq<char> },
}

impl View for Found {
    type V = FoundView;

    open spec fn view(&self) -> FoundView {
        match self {
            Found::Path(path) => FoundView::Path(path@),
            Found::Garbled(path) => FoundView::Garbled(path@),
            Found::Failed { path, reason } => FoundView::Failed { path: path@, reason: reason@ },
        }
    }
}

impl DeepView for Found {
    type V = FoundView;

    open spec fn deep_view(&self) -> FoundView {
        self@
    }
}

/// What came of expanding one pattern.
#[derive(Debug, Clone, PartialEq, Eq)]
pub enum Expansion {
    /// `pattern` is malformed: where in it, counted in characters, and why.
    Rejected { pattern: String, position: usize, reason: String },
    /// `pattern` is well formed: what the enumeration of its matches gave,
    /// step by step.
    Listed { pattern: String, steps: Vec<Found> },
}

/// An `Expansion` as plain text.
pub ghost enum ExpansionView {
    Rejected { pattern: Seq<char>, position: usize, reason: Seq<char> },
    Listed { pattern: Seq<char>, steps: Seq<FoundView> },
}

impl View for Expansion {
    type V = ExpansionView;

    open spec fn view(&self) -> ExpansionView {
        match self {
            Expansion::Rejected { pattern, position, reason } => ExpansionView::Rejected {
                pattern: pattern@,
                position: *position,
                reason: reason@,
            },
            Expansion::Listed { pattern, steps } => ExpansionView::Listed {
                pattern: pattern@,
                steps: steps.deep_view(),
            },
        }
    }
}

impl DeepView for Expansion {
    type V = ExpansionView;

    open spec fn deep_view(&self) -> ExpansionView {
        self@
    }
}

/// Whether `expansion` can be what came of expanding `pattern`: it is of
/// that pattern, and it is `Rejected`, with the fault that `pattern_fault`
/// has against the pattern, exactly where there is one.
pub open spec fn expansion_of(pattern: Seq<char>, expansion: ExpansionView) -> bool {
    match expansion {
        ExpansionView::Rejected { pattern: expanded, position, reason } => expanded == pattern
            && pattern_fault(pattern) == Some((position, reason)),
        ExpansionView::Listed { pattern: expanded, .. } => expanded == pattern && pattern_fault(
            pattern,
        ) is None,
    }
}

/// Puts a step in plain text: a failure as `Failed`, a match as `Path` or `Garbled`.
fn describe(step: &Result<PathBuf, glob::GlobError>) -> (found: Found)
    ensures
        step is Err <==> found is Failed,
        step is Ok <==> found is Path || found is Garbled,
{
    match step {
        Ok(path) => match text_of(path) {
            Some(text) => Found::Path(text),
            None => Found::Garbled(lossy_text_of(path)),
        },
        Err(failure) => Found::Failed { path: failed_at(failure), reason: failed_why(failure) },
    }
}

/// Expands `pattern` against the filesystem.
pub fn expand(pattern: &str) -> (expansion: Expansion)
    ensures
        expansion_of(pattern@, expansion@),
{
    match walk(pattern) {
        Err((position, reason)) => Expansion::Rejected {
            pattern: pattern.to_owned(),
            position,
            reason,
        },
        Ok(steps) => {
            let mut found: Vec<Found> = Vec::new();
            let mut at: usize = 0;
            while at < steps.len()
                invariant
                    at <= steps.len(),
                decreases steps.len() - at,
            {
                found.push(describe(&steps[at]));
                at = at + 1;
            }
            Expansion::Listed { pattern: pattern.to_owned(), steps: found }
        },
    }
}

/// What stands for `c` in a pattern that matches `c` itself: a character
/// with a meaning in patterns is put in brackets.
pub open spec fn escaped_char(c: char) -> Seq<char> {
    if c == '?' || c == '*' || c == '[' || c == ']' {
        seq!['[', c, ']']
    } else {
        seq![c]
    }
}

/// The pattern that matches `text` and nothing else.
pub open spec fn escaped(text: Seq<char>) -> Seq<char>
    decreases text.len(),
{
    if text.len() == 0 {
        text
    } else {
        escaped(text.drop_last()) + escaped_char(text.last())
    }
}

/// The pattern that matches `text` literally.
///
/// Calls `glob::Pattern::escape`.  Trusted: it copies `text` character by
/// character and puts each of `?`, `*`, `[` and `]` in brackets of its own.
#[verifier::external_body]
pub(crate) fn escape(text: &str) -> (pattern: String)
    ensures
        pattern@ == escaped(text@),
{
    glob::Pattern::escape(text)
}

/// The pattern for the files in the directory `dir` that match `pattern`:
/// `pattern` under `dir`, with `dir` taken literally.
pub open spec fn preview_pattern_of(dir: Seq<char>, pattern: Seq<char>) -> Seq<char> {
    joined(escaped(dir), pattern)
}

/// Builds the pattern for the files in `dir` that match `pattern`.
pub fn preview_pattern(dir: &str, pattern: &str) -> (full: String)
    ensures
        full@ == preview_pattern_of(dir@, pattern@),
{
    let literal = escape(dir);
    join(literal.as_str(), pattern)
}

/// `pattern` with a leading `~` replaced by `home`.  The `~` must be all of
/// the pattern or be followed by `/`; without a home directory nothing is
/// replaced.
pub open spec fn home_expanded(pattern: Seq<char>, home: Option<Seq<char>>) -> Seq<char> {
    match home {
        Some(dir) => if pattern.len() > 0 && pattern[0] == '~' && (pattern.len() == 1
            || pattern[1] == '/') {
            dir + pattern.skip(1)
        } else {
            pattern
        },
        None => pattern,
    }
}

/// Calls `shellexpand::tilde_with_context` with `home` as the home directory.
///
/// Trusted: the result is `home_expanded`.  On Windows the outside function
/// also expands a `~` that a backslash follows; such a pattern is kept out.
#[verifier::external_body]
fn tilde(pattern: &str, home: Option<&str>) -> (expanded: String)
    requires
        !(pattern@.len() >= 2 && pattern@[0] == '~' && pattern@[1] == '\\'),
    ensures
        expanded@ == home_expanded(pattern@, home.deep_view()),
{
    shellexpand::tilde_with_context(pattern, || home).into_owned()
}

/// Replaces a leading `~` of `pattern` by the home directory `home`.
pub fn expand_home(pattern: &str, home: Option<&str>) -> (expanded: String)
    ensures
        expanded@ == home_expanded(pattern@, home.deep_view()),
{
    let chars = chars_of(pattern);
    if chars.len() >= 2 && chars[0] == '~' && chars[1] == '\\' {
        pattern.to_owned()
    } else {
        tilde(pattern, home)
    }
}

} // verus!
