//! The preview file of a directory.

use crate::dirs::{GetDirsError, GetDirsErrorView};
use crate::patterns::{
    expand, expansion_of, preview_pattern, preview_pattern_of, Expansion, ExpansionView, Found,
    FoundView,
};
use crate::walk::pattern_fault;
use vstd::prelude::*;

verus! {

/// What one expansion settles about a preview: nothing where it lists no
/// step at all; else its first step decides, and the rest are not looked at.
/// A malformed pattern fails the lookup.
pub open spec fn verdict(expansion: ExpansionView) -> Option<Result<Seq<char>, GetDirsErrorView>> {
    match expansion {
        ExpansionView::Rejected { pattern, position, reason } => Some(
            Err(GetDirsErrorView::GlobError { pattern, position, reason }),
        ),
        ExpansionView::Listed { steps, .. } => if steps.len() == 0 {
            None
        } else {
            Some(
                match steps[0] {
                    FoundView::Path(path) => Ok(path),
                    FoundView::Garbled(path) => Err(GetDirsErrorView::PathError { path }),
                    FoundView::Failed { path, reason } => Err(
                        GetDirsErrorView::IoError { path, reason },
                    ),
                },
            )
        },
    }
}

/// The preview that `expansions` settle on, where they are the expansions
/// of a directory's preview patterns in the order of the configuration: the
/// verdict of the first expansion that has one, and no preview where none has.
pub open spec fn preview_of(expansions: Seq<ExpansionView>) -> Result<
    Option<Seq<char>>,
    GetDirsErrorView,
>
    decreases expansions.len(),
{
    if expansions.len() == 0 {
        Ok(None)
    } else {
        match verdict(expansions[0]) {
            Some(Ok(path)) => Ok(Some(path)),
            Some(Err(error)) => Err(error),
            None => preview_of(expansions.drop_first()),
        }
    }
}

/// The outcome of a preview lookup as plain text.
pub open spec fn preview_view(outcome: Result<Option<String>, GetDirsError>) -> Result<
    Option<Seq<char>>,
    GetDirsErrorView,
> {
    match outcome {
        Ok(preview) => Ok(preview.deep_view()),
        Err(error) => Err(error@),
    }
}

/// What an expansion settles, as plain text.
pub open spec fn verdict_view(settled: Option<Result<String, GetDirsError>>) -> Option<
    Result<Seq<char>, GetDirsErrorView>,
> {
    match settled {
        None => None,
        Some(Ok(path)) => Some(Ok(path@)),
        Some(Err(error)) => Some(Err(error@)),
    }
}

/// Decides what one expansion settles about a preview.
pub fn settle(expansion: &Expansion) -> (settled: Option<Result<String, GetDirsError>>)
    ensures
        verdict_view(settled) == verdict(expansion@),
{
    match expansion {
        Expansion::Rejected { pattern, position, reason } => Some(
            Err(
                GetDirsError::GlobError {
                    pattern: pattern.clone(),
                    position: *position,
                    reason: reason.clone(),
                },
            ),
        ),
        Expansion::Listed { steps, .. } => {
            if steps.len() == 0 {
                None
            } else {
                match &steps[0] {
                    Found::Path(path) => Some(Ok(path.clone())),
                    Found::Garbled(path) => Some(Err(GetDirsError::PathError { path: path.clone() })),
                    Found::Failed { path, reason } => Some(
                        Err(GetDirsError::IoError { path: path.clone(), reason: reason.clone() }),
                    ),
                }
            }
        },
    }
}

/// Picks the preview that `expansions` settle on.
pub fn pick_preview(expansions: &Vec<Expansion>) -> (outcome: Result<Option<String>, GetDirsError>)
    ensures
        preview_view(outcome) == preview_of(expansions.deep_view()),
{
    let mut at: usize = 0;
    proof {
        assert(expansions.deep_view().skip(0) =~= expansions.deep_view());
    }
    while at < expansions.len()
        invariant
            at <= expansions.len(),
            preview_of(expansions.deep_view()) == preview_of(expansions.deep_view().skip(at as int)),
        decreases expansions.len() - at,
    {
        proof {
            assert(expansions.deep_view().skip(at as int).drop_first() =~= expansions.deep_view().skip(
                at + 1,
            ));
        }
        match settle(&expansions[at]) {
            Some(Ok(path)) => {
                return Ok(Some(path));
            },
            Some(Err(error)) => {
                return Err(error);
            },
            None => {},
        }
        at = at + 1;
    }
    Ok(None)
}

/// Where the first expansions settle nothing and the next one settles
/// something, that is the outcome, whatever the later ones hold: an earlier
/// preview pattern wins over a later one.
pub proof fn lemma_earliest_pattern_wins(expansions: Seq<ExpansionView>, first: int)
    requires
        0 <= first < expansions.len(),
        forall|j: int| 0 <= j < first ==> verdict(#[trigger] expansions[j]) is None,
        verdict(expansions[first]) is Some,
    ensures
        preview_of(expansions) == (match verdict(expansions[first])->0 {
            Ok(path) => Ok::<Option<Seq<char>>, GetDirsErrorView>(Some(path)),
            Err(error) => Err(error),
        }),
    decreases first,
{
    if first > 0 {
        lemma_earliest_pattern_wins(expansions.drop_first(), first - 1);
    }
}

/// Where no expansion settles anything, there is no preview.
pub proof fn lemma_no_match_no_preview(expansions: Seq<ExpansionView>)
    requires
        forall|j: int| 0 <= j < expansions.len() ==> verdict(#[trigger] expansions[j]) is None,
    ensures
        preview_of(expansions) == Ok::<Option<Seq<char>>, GetDirsErrorView>(None),
    decreases expansions.len(),
{
    if expansions.len() > 0 {
        lemma_no_match_no_preview(expansions.drop_first());
    }
}

/// Whether `expansions` can be what a lookup of the preview of `dir` has
/// seen: the expansions of `dir`'s preview patterns in the order of
/// `patterns`, from the first one up to the one that settles the preview,
/// or all of them where none does.
pub open spec fn previews_tried(
    dir: Seq<char>,
    patterns: Seq<Seq<char>>,
    expansions: Seq<ExpansionView>,
) -> bool {
    &&& expansions.len() <= patterns.len()
    &&& forall|j: int|
        0 <= j < expansions.len() ==> expansion_of(
            preview_pattern_of(dir, patterns[j]),
            #[trigger] expansions[j],
        )
    &&& forall|j: int| 0 <= j < expansions.len() - 1 ==> verdict(#[trigger] expansions[j]) is None
    &&& expansions.len() < patterns.len() ==> expansions.len() > 0 && verdict(expansions.last()) is Some
}

/// Whether `expansion` settles a preview.
fn settles(expansion: &Expansion) -> (settled: bool)
    ensures
        settled == verdict(expansion@) is Some,
{
    match expansion {
        Expansion::Rejected { .. } => true,
        Expansion::Listed { steps, .. } => steps.len() > 0,
    }
}

/// Expands the preview patterns of `dir` in the order of `preview_files`,
/// up to the first that settles the preview.
pub fn try_previews(dir: &str, preview_files: &Vec<String>) -> (expansions: Vec<Expansion>)
    ensures
        previews_tried(dir@, preview_files.deep_view(), expansions.deep_view()),
{
    let mut expansions: Vec<Expansion> = Vec::new();
    let mut at: usize = 0;
    while at < preview_files.len()
        invariant
            at <= preview_files.len(),
            expansions.len() == at,
            forall|j: int|
                0 <= j < at ==> expansion_of(
                    preview_pattern_of(dir@, preview_files.deep_view()[j]),
                    #[trigger] expansions.deep_view()[j],
                ),
            forall|j: int| 0 <= j < at ==> verdict(#[trigger] expansions.deep_view()[j]) is None,
        decreases preview_files.len() - at,
    {
        let pattern = preview_pattern(dir, preview_files[at].as_str());
        let expansion = expand(pattern.as_str());
        let settled = settles(&expansion);
        let ghost before = expansions.deep_view();
        let ghost added = expansion@;
        expansions.push(expansion);
        proof {
            assert(expansions.deep_view() =~= before.push(added));
        }
        if settled {
            return expansions;
        }
        at = at + 1;
    }
    expansions
}

/// Looks for the preview file of the directory `path`: the first match of
/// the first of `preview_files` that matches anything in it.
pub fn get_readme(path: &str, preview_files: &Vec<String>) -> (outcome: Result<
    Option<String>,
    GetDirsError,
>)
    ensures
        exists|expansions: Seq<ExpansionView>|
            previews_tried(path@, preview_files.deep_view(), expansions) && preview_view(outcome)
                == #[trigger] preview_of(expansions),
        preview_files.len() == 0 ==> outcome == Ok::<Option<String>, GetDirsError>(None),
        preview_files.len() > 0 ==> (match pattern_fault(
            preview_pattern_of(path@, preview_files[0]@),
        ) {
            Some((position, reason)) => preview_view(outcome) == Err::<
                Option<Seq<char>>,
                GetDirsErrorView,
            >(
                GetDirsErrorView::GlobError {
                    pattern: preview_pattern_of(path@, preview_files[0]@),
                    position,
                    reason,
                },
            ),
            None => true,
        }),
        outcome matches Err(GetDirsError::GlobError { pattern, position, reason })
            ==> pattern_fault(pattern@) == Some((position, reason@)),
{
    let expansions = try_previews(path, preview_files);
    let outcome = pick_preview(&expansions);
    proof {
        lemma_glob_error_is_fault(path@, preview_files.deep_view(), expansions.deep_view());
    }
    outcome
}

/// A lookup fails on a malformed pattern only where `pattern_fault` has
/// that against the pattern.
pub proof fn lemma_glob_error_is_fault(
    dir: Seq<char>,
    patterns: Seq<Seq<char>>,
    expansions: Seq<ExpansionView>,
)
    requires
        previews_tried(dir, patterns, expansions),
    ensures
        preview_of(expansions) matches Err(GetDirsErrorView::GlobError { pattern, position, reason })
            ==> pattern_fault(pattern) == Some((position, reason)) && exists|j: int|
            0 <= j < patterns.len() && pattern == preview_pattern_of(dir, #[trigger] patterns[j]),
    decreases expansions.len(),
{
    if expansions.len() > 0 {
        if verdict(expansions[0]) is None {
            lemma_glob_error_is_fault(dir, patterns.drop_first(), expansions.drop_first());
        }
    }
}

} // verus!
