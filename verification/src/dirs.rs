//! Directory records and their discovery.

use crate::order::sorted_by_display;
use crate::paths::{display_name, final_segment};
use crate::patterns::{expand_home, home_expanded};
use crate::preview::{lemma_glob_error_is_fault, previews_tried, try_previews};
use crate::records::{
    assemble, found_in, is_discovery, items_view, lemma_root_failure_stays, record, record_of,
    records_of, root_records, well_named, Candidate, CandidateView, RootScan, RootScanView,
};
use crate::settings::Settings;
use crate::walk::{failed_at, failed_why, is_dir, lossy_text_of, pattern_fault, text_of, walk};
use std::path::PathBuf;
use vstd::prelude::*;

verus! {


/// One discovered directory.
#[derive(Debug, Clone, PartialEq, Eq)]
pub struct DirItem {
    /// The directory's path, as the search root matched it.
    pub path: String,
    /// The last segment of `path`: what the directory is shown and sorted by.
    pub display: String,
    /// The directory's preview file, if it has one.
    pub readme: Option<String>,
}

/// A `DirItem` as plain text.
pub ghost struct DirItemView {
    pub path: Seq<char>,
    pub display: Seq<char>,
    pub readme: Option<Seq<char>>,
}

impl View for DirItem {
    type V = DirItemView;

    open spec fn view(&self) -> DirItemView {
        DirItemView {
            path: self.path@,
            display: self.display@,
            readme: match self.readme {
                Some(file) => Some(file@),
                None => None,
            },
        }
    }
}

impl DeepView for DirItem {
    type V = DirItemView;

    open spec fn deep_view(&self) -> DirItemView {
        self@
    }
}

/// Why a discovery failed.  One failure fails the whole call.
#[derive(Debug, Clone, PartialEq, Eq)]
pub enum GetDirsError {
    /// The filesystem could not be read at `path` while the matches of a
    /// pattern were enumerated; `reason` is the system's message.
    IoError { path: String, reason: String },
    /// The search root or preview pattern `pattern` is malformed at
    /// `position`, counted in characters; `reason` says how.
    GlobError { pattern: String, position: usize, reason: String },
    /// A match cannot be listed: its path is not valid Unicode (`path` then
    /// has U+FFFD for every invalid part), or it has no final segment.
    PathError { path: String },
}

/// A `GetDirsError` as plain text.
pub ghost enum GetDirsErrorView {
    IoError { path: Seq<char>, reason: Seq<char> },
    GlobError { pattern: Seq<char>, position: usize, reason: Seq<char> },
    PathError { path: Seq<char> },
}

impl View for GetDirsError {
    type V = GetDirsErrorView;

    open spec fn view(&self) -> GetDirsErrorView {
        match self {
            GetDirsError::IoError { path, reason } => GetDirsErrorView::IoError {
                path: path@,
                reason: reason@,
            },
            GetDirsError::GlobError { pattern, position, reason } => GetDirsErrorView::GlobError {
                pattern: pattern@,
                position: *position,
                reason: reason@,
            },
            GetDirsError::PathError { path } => GetDirsErrorView::PathError { path: path@ },
        }
    }
}

/// Whether `candidate` can be what a discovery has seen of one step: where
/// it is a directory with a name, the expansions of its preview patterns as
/// a lookup leaves them; where it is one without a name, none.
pub open spec fn looked_up(candidate: CandidateView, preview_files: Seq<Seq<char>>) -> bool {
    match candidate {
        CandidateView::Directory { path, previews } => if final_segment(path) is None {
            previews.len() == 0
        } else {
            previews_tried(path, preview_files, previews)
        },
        _ => true,
    }
}

/// Whether `scan` can be what a discovery has seen of the search root
/// `pattern`: the root's fault where it has one; else candidates of which
/// none but the last fails.
pub open spec fn root_scanned(
    pattern: Seq<char>,
    preview_files: Seq<Seq<char>>,
    scan: RootScanView,
) -> bool {
    match scan {
        RootScanView::Rejected { pattern: expanded, position, reason } => expanded == pattern
            && pattern_fault(pattern) == Some((position, reason)),
        RootScanView::Listed { pattern: expanded, candidates } => {
            &&& expanded == pattern
            &&& pattern_fault(pattern) is None
            &&& forall|j: int|
                0 <= j < candidates.len() ==> looked_up(#[trigger] candidates[j], preview_files)
            &&& forall|j: int|
                0 <= j < candidates.len() - 1 ==> record_of(#[trigger] candidates[j]) is Ok
        },
    }
}

/// Whether `scans` can be what a discovery under these settings has seen:
/// the scans of the search roots in the order of `search_dirs`, each with
/// its leading `~` replaced by `home`, from the first root up to the one
/// that fails, or all of them where none does.
pub open spec fn scanned(
    search_dirs: Seq<Seq<char>>,
    preview_files: Seq<Seq<char>>,
    home: Option<Seq<char>>,
    scans: Seq<RootScanView>,
) -> bool {
    &&& scans.len() <= search_dirs.len()
    &&& forall|i: int|
        0 <= i < scans.len() ==> root_scanned(
            home_expanded(search_dirs[i], home),
            preview_files,
            #[trigger] scans[i],
        )
    &&& forall|i: int| 0 <= i < scans.len() - 1 ==> root_records(#[trigger] scans[i]) is Ok
    &&& scans.len() < search_dirs.len() ==> scans.len() > 0 && root_records(scans.last()) is Err
}

/// Asks the filesystem about one step of a search root's walk.  A failure is
/// `Failed`; a match is what the filesystem says: directory, garbled, other.
fn look_at(step: &Result<PathBuf, glob::GlobError>, preview_files: &Vec<String>) -> (candidate:
    Candidate)
    ensures
        looked_up(candidate@, preview_files.deep_view()),
        step is Err <==> candidate is Failed,
        step is Ok <==> candidate is Directory || candidate is Garbled || candidate is Other,
{
    match step {
        Err(failure) => Candidate::Failed { path: failed_at(failure), reason: failed_why(failure) },
        Ok(path) => {
            let dir = is_dir(path);
            match text_of(path) {
                Some(text) => {
                    if dir {
                        let previews = if display_name(text.as_str()).is_some() {
                            try_previews(text.as_str(), preview_files)
                        } else {
                            Vec::new()
                        };
                        Candidate::Directory { path: text, previews }
                    } else {
                        Candidate::Other { path: text }
                    }
                },
                None => {
                    if dir {
                        Candidate::Garbled { path: lossy_text_of(path) }
                    } else {
                        Candidate::Other { path: lossy_text_of(path) }
                    }
                },
            }
        },
    }
}

/// Expands the search root `pattern` and looks at its matches one by one,
/// up to the first that fails the discovery.  Says also whether the root
/// fails it.
fn scan_root(pattern: &str, preview_files: &Vec<String>) -> (seen: (RootScan, bool))
    ensures
        root_scanned(pattern@, preview_files.deep_view(), seen.0@),
        seen.1 == root_records(seen.0@) is Err,
{
    match walk(pattern) {
        Err((position, reason)) => (
            RootScan::Rejected { pattern: pattern.to_owned(), position, reason },
            true,
        ),
        Ok(steps) => {
            let mut candidates: Vec<Candidate> = Vec::new();
            let mut at: usize = 0;
            while at < steps.len()
                invariant
                    at <= steps.len(),
                    pattern_fault(pattern@) is None,
                    records_of(candidates.deep_view()) is Ok,
                    forall|j: int|
                        0 <= j < candidates.len() ==> looked_up(
                            #[trigger] candidates.deep_view()[j],
                            preview_files.deep_view(),
                        ),
                    forall|j: int|
                        0 <= j < candidates.len() ==> record_of(
                            #[trigger] candidates.deep_view()[j],
                        ) is Ok,
                decreases steps.len() - at,
            {
                let candidate = look_at(&steps[at], preview_files);
                let fails = record(&candidate).is_err();
                let ghost before = candidates.deep_view();
                let ghost added = candidate@;
                candidates.push(candidate);
                proof {
                    assert(candidates.deep_view() =~= before.push(added));
                    assert(candidates.deep_view().drop_last() =~= before);
                }
                if fails {
                    return (RootScan::Listed { pattern: pattern.to_owned(), candidates }, true);
                }
                at = at + 1;
            }
            (RootScan::Listed { pattern: pattern.to_owned(), candidates }, false)
        },
    }
}

/// Walks the search roots of `settings` in their order, each with its
/// leading `~` replaced by `home`, up to the first that fails the discovery.
pub fn scan(settings: &Settings, home: Option<&str>) -> (scans: Vec<RootScan>)
    ensures
        scanned(
            settings@.search_dirs,
            settings@.preview_files,
            home.deep_view(),
            scans.deep_view(),
        ),
{
    let mut scans: Vec<RootScan> = Vec::new();
    let mut at: usize = 0;
    while at < settings.search_dirs.len()
        invariant
            at <= settings.search_dirs.len(),
            scans.len() == at,
            forall|i: int|
                0 <= i < at ==> root_scanned(
                    home_expanded(settings@.search_dirs[i], home.deep_view()),
                    settings@.preview_files,
                    #[trigger] scans.deep_view()[i],
                ),
            forall|i: int| 0 <= i < at ==> root_records(#[trigger] scans.deep_view()[i]) is Ok,
        decreases settings.search_dirs.len() - at,
    {
        let pattern = expand_home(settings.search_dirs[at].as_str(), home);
        let (seen, fails) = scan_root(pattern.as_str(), &settings.preview_files);
        let ghost before = scans.deep_view();
        let ghost added = seen@;
        scans.push(seen);
        proof {
            assert(scans.deep_view() =~= before.push(added));
        }
        if fails {
            return scans;
        }
        at = at + 1;
    }
    scans
}

/// Discovers the directories under the search roots of `settings`: expands
/// each root in turn, with its leading `~` replaced by `home`, keeps the
/// matches that are directories, looks for the preview of each, and hands
/// the records out sorted by display name.  One failure fails the call.
pub fn get_dirs(settings: &Settings, home: Option<&str>) -> (outcome: Result<
    Vec<DirItem>,
    GetDirsError,
>)
    ensures
        exists|scans: Seq<RootScanView>|
            scanned(settings@.search_dirs, settings@.preview_files, home.deep_view(), scans)
                && #[trigger] is_discovery(items_view(outcome), scans),
        outcome matches Ok(items) ==> sorted_by_display(items.deep_view()),
        outcome matches Ok(items) ==> forall|at: int|
            0 <= at < items.len() ==> well_named(#[trigger] items.deep_view()[at]),
        settings.search_dirs.len() == 0 ==> (outcome matches Ok(items) && items.len() == 0),
        settings.search_dirs.len() > 0 ==> (match pattern_fault(
            home_expanded(settings.search_dirs[0]@, home.deep_view()),
        ) {
            Some((position, reason)) => items_view(outcome) == Err::<
                Seq<DirItemView>,
                GetDirsErrorView,
            >(
                GetDirsErrorView::GlobError {
                    pattern: home_expanded(settings.search_dirs[0]@, home.deep_view()),
                    position,
                    reason,
                },
            ),
            None => true,
        }),
        (exists|i: int|
            0 <= i < settings.search_dirs.len() && pattern_fault(
                home_expanded(#[trigger] settings.search_dirs[i]@, home.deep_view()),
            ) is Some) ==> outcome is Err,
        outcome matches Err(GetDirsError::GlobError { pattern, position, reason })
            ==> pattern_fault(pattern@) == Some((position, reason@)),
{
    let scans = scan(settings, home);
    let outcome = assemble(&scans);
    proof {
        let seen = scans.deep_view();
        if settings.search_dirs.len() > 0 {
            lemma_first_root_fault(
                settings@.search_dirs,
                settings@.preview_files,
                home.deep_view(),
                seen,
            );
        }
        lemma_glob_error_is_true(
            settings@.search_dirs,
            settings@.preview_files,
            home.deep_view(),
            seen,
        );
        if exists|i: int|
            0 <= i < settings.search_dirs.len() && pattern_fault(
                home_expanded(#[trigger] settings.search_dirs[i]@, home.deep_view()),
            ) is Some {
            let i = choose|i: int|
                0 <= i < settings.search_dirs.len() && pattern_fault(
                    home_expanded(#[trigger] settings.search_dirs[i]@, home.deep_view()),
                ) is Some;
            lemma_malformed_root_fails(
                settings@.search_dirs,
                settings@.preview_files,
                home.deep_view(),
                seen,
                i,
            );
        }
    }
    outcome
}

/// Where a search root is malformed, the discovery fails: on that root, or
/// on what failed before it was reached.
pub proof fn lemma_malformed_root_fails(
    search_dirs: Seq<Seq<char>>,
    preview_files: Seq<Seq<char>>,
    home: Option<Seq<char>>,
    scans: Seq<RootScanView>,
    at: int,
)
    requires
        scanned(search_dirs, preview_files, home, scans),
        0 <= at < search_dirs.len(),
        pattern_fault(home_expanded(search_dirs[at], home)) is Some,
    ensures
        found_in(scans) is Err,
{
    if at < scans.len() {
        let first = scans.take(at + 1);
        lemma_root_failure_stays(first, scans);
    }
}

/// Where the first search root is malformed, that is the failure of the
/// discovery.
pub proof fn lemma_first_root_fault(
    search_dirs: Seq<Seq<char>>,
    preview_files: Seq<Seq<char>>,
    home: Option<Seq<char>>,
    scans: Seq<RootScanView>,
)
    requires
        scanned(search_dirs, preview_files, home, scans),
        search_dirs.len() > 0,
    ensures
        (match pattern_fault(home_expanded(search_dirs[0], home)) {
            Some((position, reason)) => found_in(scans) == Err::<
                Seq<DirItemView>,
                GetDirsErrorView,
            >(
                GetDirsErrorView::GlobError {
                    pattern: home_expanded(search_dirs[0], home),
                    position,
                    reason,
                },
            ),
            None => true,
        }),
{
    if pattern_fault(home_expanded(search_dirs[0], home)) is Some {
        let first = scans.take(1);
        assert(found_in(first.drop_last()) == Ok::<Seq<DirItemView>, GetDirsErrorView>(Seq::empty()));
        lemma_root_failure_stays(first, scans);
    }
}

/// Where the candidates were looked up as a discovery does, a failure of
/// theirs on a malformed pattern is a fault of that pattern.
proof fn lemma_candidates_glob_error(candidates: Seq<CandidateView>, preview_files: Seq<Seq<char>>)
    requires
        forall|j: int|
            0 <= j < candidates.len() ==> looked_up(#[trigger] candidates[j], preview_files),
    ensures
        records_of(candidates) matches Err(GetDirsErrorView::GlobError { pattern, position, reason })
            ==> pattern_fault(pattern) == Some((position, reason)),
    decreases candidates.len(),
{
    if candidates.len() > 0 {
        lemma_candidates_glob_error(candidates.drop_last(), preview_files);
        match candidates.last() {
            CandidateView::Directory { path, previews } => {
                if final_segment(path) is Some {
                    lemma_glob_error_is_fault(path, preview_files, previews);
                }
            },
            _ => {},
        }
    }
}

/// A discovery fails on a malformed pattern only where `pattern_fault` has
/// that against the pattern.
pub proof fn lemma_glob_error_is_true(
    search_dirs: Seq<Seq<char>>,
    preview_files: Seq<Seq<char>>,
    home: Option<Seq<char>>,
    scans: Seq<RootScanView>,
)
    requires
        scanned(search_dirs, preview_files, home, scans),
    ensures
        found_in(scans) matches Err(GetDirsErrorView::GlobError { pattern, position, reason })
            ==> pattern_fault(pattern) == Some((position, reason)),
    decreases scans.len(),
{
    if scans.len() > 0 {
        let before = scans.drop_last();
        let roots = search_dirs.take(before.len() as int);
        lemma_glob_error_is_true(roots, preview_files, home, before);
        match scans.last() {
            RootScanView::Listed { candidates, .. } => {
                lemma_candidates_glob_error(candidates, preview_files);
            },
            _ => {},
        }
    }
}

} // verus!
