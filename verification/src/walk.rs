//! The filesystem's side of discovery: what is asked of it, and through
//! which calls.  Nothing in this file is proved: each item says what is
//! taken on trust.

use std::path::PathBuf;
use vstd::prelude::*;

verus! {

/// `std::path::PathBuf`: a path as the system has it, not always text.
#[verifier::external_type_specification]
#[verifier::external_body]
pub struct ExPathBuf(std::path::PathBuf);

/// `glob::GlobError`: a place that could not be read, and the system's error.
#[verifier::external_type_specification]
#[verifier::external_body]
pub struct ExGlobError(glob::GlobError);

/// What `glob::glob` has against `pattern`: nothing where it accepts the
/// pattern, else the position and the message of the `PatternError` that it
/// returns.
pub uninterp spec fn pattern_fault(pattern: Seq<char>) -> Option<(usize, Seq<char>)>;

/// Expands `pattern` against the filesystem.
///
/// Calls `glob::glob` and walks the iterator that it returns to its end.
/// Trusted: whether `glob::glob` refuses a pattern, and with which position
/// and message, depends on the pattern's text alone (and on what separates
/// the segments of a path on the platform), so it is `pattern_fault` of the
/// pattern.  Nothing is claimed of the steps of the walk: they are the
/// filesystem's answer.
#[verifier::external_body]
pub(crate) fn walk(pattern: &str) -> (steps: Result<
    Vec<Result<PathBuf, glob::GlobError>>,
    (usize, String),
>)
    ensures
        steps is Ok ==> pattern_fault(pattern@) is None,
        steps matches Err((position, reason)) ==> pattern_fault(pattern@) == Some(
            (position, reason@),
        ),
{
    match glob::glob(pattern) {
        Ok(paths) => Ok(paths.collect()),
        Err(e) => Err((e.pos, e.msg.to_string())),
    }
}

/// Whether `path` is a directory now.
///
/// Calls `std::path::Path::is_dir`, which follows symbolic links and
/// answers `false` where the path cannot be examined.  Trusted, with
/// nothing claimed: the answer is the filesystem's.
#[verifier::external_body]
pub(crate) fn is_dir(path: &PathBuf) -> bool {
    path.is_dir()
}

/// `path` as text, where it is valid Unicode.
///
/// Calls `std::path::Path::to_str`.  Trusted, with nothing claimed.
#[verifier::external_body]
pub(crate) fn text_of(path: &PathBuf) -> Option<String> {
    match path.to_str() {
        Some(text) => Some(text.to_string()),
        None => None,
    }
}

/// `path` as text, with U+FFFD in place of every part that is not valid
/// Unicode.
///
/// Calls `std::path::Path::to_string_lossy`.  Trusted, with nothing claimed.
#[verifier::external_body]
pub(crate) fn lossy_text_of(path: &PathBuf) -> String {
    path.to_string_lossy().into_owned()
}

/// The place that could not be read, as `lossy_text_of` gives it.
///
/// Calls `glob::GlobError::path`.  Trusted, with nothing claimed.
#[verifier::external_body]
pub(crate) fn failed_at(failure: &glob::GlobError) -> String {
    failure.path().to_string_lossy().into_owned()
}

/// The system's message for why a place could not be read.
///
/// Calls `glob::GlobError::error`.  Trusted, with nothing claimed.
#[verifier::external_body]
pub(crate) fn failed_why(failure: &glob::GlobError) -> String {
    failure.error().to_string()
}

} // verus!
