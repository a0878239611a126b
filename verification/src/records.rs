//! What a walk of the search roots has seen, and the records that it
//! stands for.

use crate::dirs::{DirItem, DirItemView, GetDirsError, GetDirsErrorView};
use crate::order::{
    arrange, is_arrangement, lemma_arrangement_member, lemma_arrangement_unique, sorted_by_display,
};
use crate::paths::{display_name, final_segment};
use crate::patterns::{Expansion, ExpansionView};
use crate::preview::{pick_preview, preview_of};
use vstd::prelude::*;

verus! {

/// One step of the enumeration of a search root's matches, with what was
/// then asked about the match.
#[derive(Debug, Clone, PartialEq, Eq)]
pub enum Candidate {
    /// A match that is a directory, and the expansions of its preview
    /// patterns as far as they were tried.
    Directory { path: String, previews: Vec<Expansion> },
    /// A match that is no directory: a file, a link to one, a link to
    /// nothing.
    Other { path: String },
    /// A match that is a directory and whose path is not valid Unicode, with
    /// every invalid part replaced by U+FFFD.
    Garbled { path: String },
    /// A place that could not be read, and the system's reason.
    Failed { path: String, reason: String },
}

/// A `Candidate` as plain text.
pub ghost enum CandidateView {
    Directory { path: Seq<char>, previews: Seq<ExpansionView> },
    Other { path: Seq<char> },
    Garbled { path: Seq<char> },
    Failed { path: Seq<char>, reason: Seq<char> },
}

impl View for Candidate {
    type V = CandidateView;

    open spec fn view(&self) -> CandidateView {
        match self {
            Candidate::Directory { path, previews } => CandidateView::Directory {
                path: path@,
                previews: previews.deep_view(),
            },
            Candidate::Other { path } => CandidateView::Other { path: path@ },
            Candidate::Garbled { path } => CandidateView::Garbled { path: path@ },
            Candidate::Failed { path, reason } => CandidateView::Failed {
                path: path@,
                reason: reason@,
            },
        }
    }
}

impl DeepView for Candidate {
    type V = CandidateView;

    open spec fn deep_view(&self) -> CandidateView {
        self@
    }
}

/// What came of expanding one search root.
#[derive(Debug, Clone, PartialEq, Eq)]
pub enum RootScan {
    /// The root `pattern` is malformed: where in it, counted in characters,
    /// and why.
    Rejected { pattern: String, position: usize, reason: String },
    /// The root `pattern` is well formed: its candidates in the order of
    /// enumeration, up to the first that fails the discovery.
    Listed { pattern: String, candidates: Vec<Candidate> },
}

/// A `RootScan` as plain text.
pub ghost enum RootScanView {
    Rejected { pattern: Seq<char>, position: usize, reason: Seq<char> },
    Listed { pattern: Seq<char>, candidates: Seq<CandidateView> },
}

impl View for RootScan {
    type V = RootScanView;

    open spec fn view(&self) -> RootScanView {
        match self {
            RootScan::Rejected { pattern, position, reason } => RootScanView::Rejected {
                pattern: pattern@,
                position: *position,
                reason: reason@,
            },
            RootScan::Listed { pattern, candidates } => RootScanView::Listed {
                pattern: pattern@,
                candidates: candidates.deep_view(),
            },
        }
    }
}

impl DeepView for RootScan {
    type V = RootScanView;

    open spec fn deep_view(&self) -> RootScanView {
        self@
    }
}

/// What `candidate` adds to a discovery: a record where it is a directory,
/// nothing where it is something else, a failure where it could not be read
/// or named or where the lookup of its preview failed.
pub open spec fn record_of(candidate: CandidateView) -> Result<
    Option<DirItemView>,
    GetDirsErrorView,
> {
    match candidate {
        CandidateView::Failed { path, reason } => Err(GetDirsErrorView::IoError { path, reason }),
        CandidateView::Garbled { path } => Err(GetDirsErrorView::PathError { path }),
        CandidateView::Other { .. } => Ok(None),
        CandidateView::Directory { path, previews } => match final_segment(path) {
            None => Err(GetDirsErrorView::PathError { path }),
            Some(display) => match preview_of(previews) {
                Err(error) => Err(error),
                Ok(readme) => Ok(Some(DirItemView { path, display, readme })),
            },
        },
    }
}

/// The records of `candidates` in their order, or the first failure among
/// them.
pub open spec fn records_of(candidates: Seq<CandidateView>) -> Result<
    Seq<DirItemView>,
    GetDirsErrorView,
>
    decreases candidates.len(),
{
    if candidates.len() == 0 {
        Ok(Seq::empty())
    } else {
        match records_of(candidates.drop_last()) {
            Err(error) => Err(error),
            Ok(records) => match record_of(candidates.last()) {
                Err(error) => Err(error),
                Ok(Some(record)) => Ok(records.push(record)),
                Ok(None) => Ok(records),
            },
        }
    }
}

/// The records of one search root, or its failure.
pub open spec fn root_records(scan: RootScanView) -> Result<Seq<DirItemView>, GetDirsErrorView> {
    match scan {
        RootScanView::Rejected { pattern, position, reason } => Err(
            GetDirsErrorView::GlobError { pattern, position, reason },
        ),
        RootScanView::Listed { candidates, .. } => records_of(candidates),
    }
}

/// The records of all search roots in the order of discovery, root after
/// root and within a root in the order of enumeration; or the first failure.
pub open spec fn found_in(scans: Seq<RootScanView>) -> Result<Seq<DirItemView>, GetDirsErrorView>
    decreases scans.len(),
{
    if scans.len() == 0 {
        Ok(Seq::empty())
    } else {
        match found_in(scans.drop_last()) {
            Err(error) => Err(error),
            Ok(records) => match root_records(scans.last()) {
                Err(error) => Err(error),
                Ok(more) => Ok(records + more),
            },
        }
    }
}

/// The candidates of `scans` that are directories, in the order of
/// discovery.
pub open spec fn directories(scans: Seq<RootScanView>) -> Seq<CandidateView>
    decreases scans.len(),
{
    if scans.len() == 0 {
        Seq::empty()
    } else {
        directories(scans.drop_last()) + match scans.last() {
            RootScanView::Listed { candidates, .. } => candidates.filter(
                |candidate: CandidateView| candidate is Directory,
            ),
            RootScanView::Rejected { .. } => Seq::empty(),
        }
    }
}

/// Whether `item` is the record of a directory among the candidates of
/// `scans`.
pub open spec fn stands_for_directory(item: DirItemView, scans: Seq<RootScanView>) -> bool {
    exists|k: int|
        0 <= k < directories(scans).len() && record_of(#[trigger] directories(scans)[k]) == Ok::<
            Option<DirItemView>,
            GetDirsErrorView,
        >(Some(item))
}

/// Whether `item` is shown under the final segment of its path.
pub open spec fn well_named(item: DirItemView) -> bool {
    final_segment(item.path) == Some(item.display)
}

/// Whether `outcome` is the discovery that `scans` stand for: their first
/// failure where there is one, else the arrangement of their records.
pub open spec fn is_discovery(
    outcome: Result<Seq<DirItemView>, GetDirsErrorView>,
    scans: Seq<RootScanView>,
) -> bool {
    match found_in(scans) {
        Err(error) => outcome == Err::<Seq<DirItemView>, GetDirsErrorView>(error),
        Ok(found) => outcome is Ok && is_arrangement(outcome->Ok_0, found),
    }
}

/// The outcome of a discovery as plain text.
pub open spec fn items_view(outcome: Result<Vec<DirItem>, GetDirsError>) -> Result<
    Seq<DirItemView>,
    GetDirsErrorView,
> {
    match outcome {
        Ok(items) => Ok(items.deep_view()),
        Err(error) => Err(error@),
    }
}

/// What a candidate adds, as plain text.
pub open spec fn record_view(outcome: Result<Option<DirItem>, GetDirsError>) -> Result<
    Option<DirItemView>,
    GetDirsErrorView,
> {
    match outcome {
        Ok(item) => Ok(item.deep_view()),
        Err(error) => Err(error@),
    }
}

/// Makes the record of `candidate`.
pub fn record(candidate: &Candidate) -> (outcome: Result<Option<DirItem>, GetDirsError>)
    ensures
        record_view(outcome) == record_of(candidate@),
{
    match candidate {
        Candidate::Failed { path, reason } => Err(
            GetDirsError::IoError { path: path.clone(), reason: reason.clone() },
        ),
        Candidate::Garbled { path } => Err(GetDirsError::PathError { path: path.clone() }),
        Candidate::Other { .. } => Ok(None),
        Candidate::Directory { path, previews } => match display_name(path.as_str()) {
            None => Err(GetDirsError::PathError { path: path.clone() }),
            Some(display) => match pick_preview(previews) {
                Err(error) => Err(error),
                Ok(readme) => Ok(Some(DirItem { path: path.clone(), display, readme })),
            },
        },
    }
}

/// Adds the records of `candidates` to `items`, in their order.
fn add_records(items: &mut Vec<DirItem>, candidates: &Vec<Candidate>) -> (outcome: Result<
    (),
    GetDirsError,
>)
    ensures
        outcome is Ok ==> records_of(candidates.deep_view()) is Ok && final(items).deep_view()
            == old(items).deep_view() + records_of(candidates.deep_view())->Ok_0,
        outcome matches Err(error) ==> records_of(candidates.deep_view()) == Err::<
            Seq<DirItemView>,
            GetDirsErrorView,
        >(error@),
{
    let ghost start = items.deep_view();
    let mut at: usize = 0;
    while at < candidates.len()
        invariant
            at <= candidates.len(),
            records_of(candidates.deep_view().take(at as int)) is Ok,
            items.deep_view() == start + records_of(candidates.deep_view().take(at as int))->Ok_0,
        decreases candidates.len() - at,
    {
        let ghost before = items.deep_view();
        let ghost upto = candidates.deep_view().take(at + 1);
        proof {
            assert(upto.drop_last() =~= candidates.deep_view().take(at as int));
        }
        match record(&candidates[at]) {
            Err(error) => {
                proof {
                    lemma_failure_stays(upto, candidates.deep_view());
                }
                return Err(error);
            },
            Ok(Some(item)) => {
                items.push(item);
                proof {
                    assert(items.deep_view() =~= before.push(item@));
                }
            },
            Ok(None) => {},
        }
        at = at + 1;
    }
    proof {
        assert(candidates.deep_view().take(at as int) =~= candidates.deep_view());
    }
    Ok(())
}

/// A failure among the first search roots is the failure of them all.
pub proof fn lemma_root_failure_stays(first: Seq<RootScanView>, all: Seq<RootScanView>)
    requires
        first.len() <= all.len(),
        first == all.take(first.len() as int),
        found_in(first) is Err,
    ensures
        found_in(all) == found_in(first),
    decreases all.len(),
{
    if first.len() < all.len() {
        assert(all.drop_last().take(first.len() as int) =~= first);
        lemma_root_failure_stays(first, all.drop_last());
    } else {
        assert(all.take(first.len() as int) =~= all);
    }
}

/// Collects the records of `scans` in the order of discovery.
pub fn collect(scans: &Vec<RootScan>) -> (outcome: Result<Vec<DirItem>, GetDirsError>)
    ensures
        items_view(outcome) == found_in(scans.deep_view()),
{
    let mut items: Vec<DirItem> = Vec::new();
    let mut at: usize = 0;
    proof {
        assert(items.deep_view() =~= Seq::<DirItemView>::empty());
    }
    while at < scans.len()
        invariant
            at <= scans.len(),
            found_in(scans.deep_view().take(at as int)) == Ok::<
                Seq<DirItemView>,
                GetDirsErrorView,
            >(items.deep_view()),
        decreases scans.len() - at,
    {
        let ghost upto = scans.deep_view().take(at + 1);
        proof {
            assert(upto.drop_last() =~= scans.deep_view().take(at as int));
        }
        match &scans[at] {
            RootScan::Rejected { pattern, position, reason } => {
                proof {
                    lemma_root_failure_stays(upto, scans.deep_view());
                }
                return Err(
                    GetDirsError::GlobError {
                        pattern: pattern.clone(),
                        position: *position,
                        reason: reason.clone(),
                    },
                );
            },
            RootScan::Listed { candidates, .. } => {
                match add_records(&mut items, candidates) {
                    Err(error) => {
                        proof {
                            lemma_root_failure_stays(upto, scans.deep_view());
                        }
                        return Err(error);
                    },
                    Ok(()) => {},
                }
            },
        }
        at = at + 1;
    }
    proof {
        assert(scans.deep_view().take(at as int) =~= scans.deep_view());
    }
    Ok(items)
}

/// The discovery that `scans` stand for: the records of the directories
/// among their candidates, sorted by display name, those of one name in the
/// order of discovery; or the first failure, and no record at all.
pub fn assemble(scans: &Vec<RootScan>) -> (outcome: Result<Vec<DirItem>, GetDirsError>)
    ensures
        is_discovery(items_view(outcome), scans.deep_view()),
        outcome matches Ok(items) ==> sorted_by_display(items.deep_view()),
        outcome matches Ok(items) ==> forall|at: int|
            0 <= at < items.len() ==> well_named(#[trigger] items.deep_view()[at]),
        outcome matches Ok(items) ==> items.len() == directories(scans.deep_view()).len(),
        outcome matches Ok(items) ==> forall|at: int|
            0 <= at < items.len() ==> stands_for_directory(
                #[trigger] items.deep_view()[at],
                scans.deep_view(),
            ),
{
    match collect(scans) {
        Err(error) => Err(error),
        Ok(items) => {
            let sorted = arrange(items);
            proof {
                lemma_one_record_for_each_directory(sorted.deep_view(), scans.deep_view());
                assert forall|at: int| 0 <= at < sorted.len() implies stands_for_directory(
                    #[trigger] sorted.deep_view()[at],
                    scans.deep_view(),
                ) by {
                    lemma_records_stand_for_directories(sorted.deep_view(), scans.deep_view(), at);
                }
            }
            Ok(sorted)
        },
    }
}

/// What `scans` stand for is one outcome only.
pub proof fn lemma_discovery_unique(
    first: Result<Seq<DirItemView>, GetDirsErrorView>,
    second: Result<Seq<DirItemView>, GetDirsErrorView>,
    scans: Seq<RootScanView>,
)
    requires
        is_discovery(first, scans),
        is_discovery(second, scans),
    ensures
        first == second,
{
    if found_in(scans) is Ok {
        lemma_arrangement_unique(first->Ok_0, second->Ok_0, found_in(scans)->Ok_0);
    }
}

/// Every record of a discovery is shown under the final segment of its path.
pub proof fn lemma_records_are_well_named(items: Seq<DirItemView>, scans: Seq<RootScanView>)
    requires
        is_discovery(Ok(items), scans),
    ensures
        forall|at: int| 0 <= at < items.len() ==> well_named(#[trigger] items[at]),
{
    assert forall|at: int| 0 <= at < items.len() implies well_named(#[trigger] items[at]) by {
        lemma_records_stand_for_directories(items, scans, at);
    }
}

/// Where no candidate fails, the records are those of the directories among
/// the candidates, one for each.
proof fn lemma_records_are_directories(candidates: Seq<CandidateView>)
    requires
        records_of(candidates) is Ok,
    ensures
        ({
            let kept = candidates.filter(|candidate: CandidateView| candidate is Directory);
            let records = records_of(candidates)->Ok_0;
            &&& records.len() == kept.len()
            &&& forall|k: int|
                0 <= k < kept.len() ==> record_of(#[trigger] kept[k]) == Ok::<
                    Option<DirItemView>,
                    GetDirsErrorView,
                >(Some(records[k]))
        }),
    decreases candidates.len(),
{
    reveal(Seq::filter);
    if candidates.len() > 0 {
        lemma_records_are_directories(candidates.drop_last());
    }
}

/// Where a discovery does not fail, its records in the order of discovery
/// are those of the directories among the candidates, one for each: a
/// directory that two roots match gives two records, and a match that is no
/// directory gives none.
pub proof fn lemma_found_are_directories(scans: Seq<RootScanView>)
    requires
        found_in(scans) is Ok,
    ensures
        found_in(scans)->Ok_0.len() == directories(scans).len(),
        forall|k: int|
            0 <= k < directories(scans).len() ==> record_of(#[trigger] directories(scans)[k])
                == Ok::<Option<DirItemView>, GetDirsErrorView>(Some(found_in(scans)->Ok_0[k])),
    decreases scans.len(),
{
    if scans.len() > 0 {
        lemma_found_are_directories(scans.drop_last());
        match scans.last() {
            RootScanView::Listed { candidates, .. } => {
                lemma_records_are_directories(candidates);
            },
            _ => {},
        }
    }
}

/// A discovery that does not fail has as many records as there are
/// directories among the candidates of all search roots.
pub proof fn lemma_one_record_for_each_directory(
    items: Seq<DirItemView>,
    scans: Seq<RootScanView>,
)
    requires
        is_discovery(Ok(items), scans),
    ensures
        items.len() == directories(scans).len(),
{
    lemma_found_are_directories(scans);
}

/// Every record of a discovery is the record of a directory among the
/// candidates: a match that is no directory is never in the outcome.
pub proof fn lemma_records_stand_for_directories(
    items: Seq<DirItemView>,
    scans: Seq<RootScanView>,
    at: int,
)
    requires
        is_discovery(Ok(items), scans),
        0 <= at < items.len(),
    ensures
        stands_for_directory(items[at], scans),
{
    lemma_found_are_directories(scans);
    let found = found_in(scans)->Ok_0;
    lemma_arrangement_member(items, found, at);
    let k = choose|k: int| 0 <= k < found.len() && found[k] == items[at];
    assert(record_of(directories(scans)[k]) == Ok::<Option<DirItemView>, GetDirsErrorView>(
        Some(found[k]),
    ));
}

/// A failure among the first candidates is the failure of them all.
pub proof fn lemma_failure_stays(first: Seq<CandidateView>, all: Seq<CandidateView>)
    requires
        first.len() <= all.len(),
        first == all.take(first.len() as int),
        records_of(first) is Err,
    ensures
        records_of(all) == records_of(first),
    decreases all.len(),
{
    if first.len() < all.len() {
        assert(all.drop_last().take(first.len() as int) =~= first);
        lemma_failure_stays(first, all.drop_last());
    } else {
        assert(all.take(first.len() as int) =~= all);
    }
}

} // verus!
