//! Laws of the hints that a response adds to the cache and to the view.

use vstd::prelude::*;

use crate::clock::{changed_since, lemma_unchanged_since_itself};
use crate::document::{document_of, task_of};
use crate::fetch::{ProviderError, TaskId};
use crate::hint::{BufferId, ExcerptId, HintChunk, InlayHint, PointRange, RowRange};
use crate::hint_data::HintData;
use crate::inlay::{ids_of, Inlay, InlayFilter, InlaySpliceView};
use crate::multi_buffer::Excerpt;
use crate::reconcile::{collapse_runs, flattened, hints_to_insert, is_within};
use crate::multi_buffer::buffer_for_excerpt;

verus! {

/// Records that differ from their neighbours all stay, in their order, however
/// many of them share a position.
pub proof fn lemma_distinct_neighbours_all_stay(hints: Seq<InlayHint>)
    requires
        forall|i: int| 0 < i < hints.len() ==> (#[trigger] hints[i])@ != hints[i - 1]@,
    ensures
        collapse_runs(hints) == hints,
    decreases hints.len(),
{
    if hints.len() > 0 {
        let earlier = hints.drop_last();
        assert forall|i: int| 0 < i < earlier.len() implies (#[trigger] earlier[i])@ != earlier[i
            - 1]@ by {
            assert(earlier[i] == hints[i]);
        }
        lemma_distinct_neighbours_all_stay(earlier);
        if earlier.len() > 0 {
            assert(earlier.last() == hints[hints.len() - 2]);
            assert(hints.last()@ != hints[hints.len() - 2]@);
        }
        assert(earlier.push(hints.last()) == hints);
    }
}


/// The first response for a document after the cache was cleared is merged:
/// all the hints it holds for the span enter the cache, and those of an
/// allowed kind enter the view.
pub proof fn lemma_first_response_repopulates(
    data: HintData,
    buffer_id: BufferId,
    key: RowRange,
    task_id: TaskId,
    chunks: Vec<HintChunk>,
    excerpts: Seq<Excerpt>,
    visible: Seq<Inlay>,
    first_id: usize,
)
    requires
        data.is_current(buffer_id, key, task_id),
        document_of(data.documents, buffer_id).snapshot_version.is_none(),
        data.cached == Seq::<Inlay>::empty(),
    ensures
        ({
            let task = task_of(data.documents, buffer_id, key).unwrap();
            let new_hints = hints_to_insert(
                chunks@,
                task.range,
                excerpts,
                task.excerpt_id,
                first_id,
            );
            let (next, splice) = data.reconciled(
                buffer_id,
                key,
                task_id,
                Ok(chunks),
                excerpts,
                visible,
                first_id,
            );
            &&& next.cached == new_hints
            &&& splice.is_some()
            &&& splice.unwrap().to_insert == new_hints.filter(
                InlayFilter::Allowed(data.allowed_hint_kinds).pred(),
            )
            &&& document_of(next.documents, buffer_id).snapshot_version == Some(
                task.buffer_version,
            )
        }),
{
    let task = task_of(data.documents, buffer_id, key).unwrap();
    let new_hints = hints_to_insert(chunks@, task.range, excerpts, task.excerpt_id, first_id);
    assert(data.cached =~= Seq::<Inlay>::empty());
    assert(Seq::<Inlay>::empty() + new_hints =~= new_hints);
}

/// No hint that the completion of a fetch adds to the cache or to the view
/// lies outside the span that the fetch asked for, and each stems from a
/// record of the response.
pub proof fn lemma_merged_hints_lie_within_range(
    data: HintData,
    buffer_id: BufferId,
    key: RowRange,
    task_id: TaskId,
    response: Result<Vec<HintChunk>, ProviderError>,
    excerpts: Seq<Excerpt>,
    visible: Seq<Inlay>,
    first_id: usize,
)
    requires
        data.is_current(buffer_id, key, task_id),
    ensures
        ({
            let range = task_of(data.documents, buffer_id, key).unwrap().range;
            let merged = data.merged_hints(buffer_id, key, task_id, response, excerpts, first_id);
            let (next, splice) = data.reconciled(
                buffer_id,
                key,
                task_id,
                response,
                excerpts,
                visible,
                first_id,
            );
            &&& merged.len() > 0 ==> response.is_ok()
            &&& forall|i: int|
                0 <= i < merged.len() ==> range.contains((#[trigger] merged[i]).hint.position)
                    && flattened(response.unwrap()@).contains(merged[i].hint)
            &&& splice.is_some() ==> forall|i: int|
                0 <= i < splice.unwrap().to_insert.len() ==> range.contains(
                    (#[trigger] splice.unwrap().to_insert[i]).hint.position,
                ) && flattened(response.unwrap()@).contains(splice.unwrap().to_insert[i].hint)
            &&& forall|x: Inlay| #[trigger]
                next.cached.contains(x) ==> data.cached.contains(x) || merged.contains(x)
        }),
{
    let task = task_of(data.documents, buffer_id, key).unwrap();
    let merged = data.merged_hints(buffer_id, key, task_id, response, excerpts, first_id);
    let next = data.reconciled(buffer_id, key, task_id, response, excerpts, visible, first_id).0;
    let allowed = InlayFilter::Allowed(data.allowed_hint_kinds).pred();
    assert forall|i: int| 0 <= i < merged.len() implies task.range.contains(
        (#[trigger] merged[i]).hint.position,
    ) && flattened(response.unwrap()@).contains(merged[i].hint) by {
        match response {
            Ok(chunks) => {
                lemma_inserted_hints_stem_from_records_within_range(
                    chunks@,
                    task.range,
                    excerpts,
                    task.excerpt_id,
                    first_id,
                    i,
                );
            },
            Err(_) => {},
        }
    }
    assert forall|i: int| 0 <= i < merged.filter(allowed).len() implies task.range.contains(
        (#[trigger] merged.filter(allowed)[i]).hint.position,
    ) && flattened(response.unwrap()@).contains(merged.filter(allowed)[i].hint) by {
        let x = merged.filter(allowed)[i];
        assert(merged.filter(allowed).contains(x));
        merged.lemma_filter_contains_rev(allowed, x);
    }
    assert forall|x: Inlay| #[trigger] next.cached.contains(x) implies data.cached.contains(x)
        || merged.contains(x) by {
        let i = choose|i: int| 0 <= i < next.cached.len() && next.cached[i] == x;
        if next.cached == data.cached + merged {
            if i < data.cached.len() {
                assert(data.cached[i] == x);
            } else {
                assert(merged[i - data.cached.len()] == x);
            }
        }
    }
}

/// A response that is behind the cached hints of its document is dropped: when
/// the version recorded for the document holds an edit that the fetch had not
/// seen, the cache stays as it is and nothing is spliced. The fetch leaves the
/// registry all the same.
pub proof fn lemma_outdated_response_is_dropped(
    data: HintData,
    buffer_id: BufferId,
    key: RowRange,
    task_id: TaskId,
    response: Result<Vec<HintChunk>, ProviderError>,
    excerpts: Seq<Excerpt>,
    visible: Seq<Inlay>,
    first_id: usize,
)
    requires
        data.is_current(buffer_id, key, task_id),
        document_of(data.documents, buffer_id).snapshot_version.is_some(),
        changed_since(
            document_of(data.documents, buffer_id).snapshot_version.unwrap()@,
            task_of(data.documents, buffer_id, key).unwrap().buffer_version@,
        ),
    ensures
        ({
            let (next, splice) = data.reconciled(
                buffer_id,
                key,
                task_id,
                response,
                excerpts,
                visible,
                first_id,
            );
            &&& splice == None::<InlaySpliceView>
            &&& next.cached == data.cached
            &&& document_of(next.documents, buffer_id).snapshot_version == document_of(
                data.documents,
                buffer_id,
            ).snapshot_version
            &&& task_of(next.documents, buffer_id, key).is_none()
            &&& data.merged_hints(buffer_id, key, task_id, response, excerpts, first_id).len() == 0
        }),
{
}

/// A response for the very version that the cached hints of its document
/// stand for is merged, and it only adds to them unless its strategy asks for
/// their replacement.
pub proof fn lemma_response_at_cached_version_is_merged(
    data: HintData,
    buffer_id: BufferId,
    key: RowRange,
    task_id: TaskId,
    chunks: Vec<HintChunk>,
    excerpts: Seq<Excerpt>,
    visible: Seq<Inlay>,
    first_id: usize,
)
    requires
        data.is_current(buffer_id, key, task_id),
        document_of(data.documents, buffer_id).snapshot_version.is_some(),
        document_of(data.documents, buffer_id).snapshot_version.unwrap()@ == task_of(
            data.documents,
            buffer_id,
            key,
        ).unwrap().buffer_version@,
    ensures
        ({
            let task = task_of(data.documents, buffer_id, key).unwrap();
            let new_hints = hints_to_insert(
                chunks@,
                task.range,
                excerpts,
                task.excerpt_id,
                first_id,
            );
            let (next, splice) = data.reconciled(
                buffer_id,
                key,
                task_id,
                Ok(chunks),
                excerpts,
                visible,
                first_id,
            );
            &&& splice.is_some()
            &&& !task.strategy.should_invalidate() ==> next.cached == data.cached + new_hints
                && splice.unwrap().to_remove.len() == 0
            &&& task.strategy.should_invalidate() ==> next.cached == new_hints
                && splice.unwrap().to_remove == ids_of(visible.filter(InlayFilter::Hints.pred()))
        }),
{
    lemma_unchanged_since_itself(task_of(data.documents, buffer_id, key).unwrap().buffer_version@);
}

/// Collapsing runs makes up no record: what stays is among what came.
pub proof fn lemma_collapsed_records_are_records(hints: Seq<InlayHint>, i: int)
    requires
        0 <= i < collapse_runs(hints).len(),
    ensures
        hints.contains(collapse_runs(hints)[i]),
    decreases hints.len(),
{
    if hints.len() > 0 {
        let earlier = hints.drop_last();
        let kept = collapse_runs(earlier);
        if i < kept.len() {
            lemma_collapsed_records_are_records(earlier, i);
            let k = choose|k: int| 0 <= k < earlier.len() && earlier[k] == kept[i];
            assert(hints[k] == kept[i]);
        } else {
            assert(hints[hints.len() - 1] == collapse_runs(hints)[i]);
        }
    }
}

/// Every hint that a response adds stems from a record of the response whose
/// position lies in the span that was asked for, its ends included; it is
/// placed at that position, seen through the excerpt of the fetch, and it is a
/// hint with an identity from `first_id` on. Where the view no longer holds
/// the excerpt, nothing is added.
pub proof fn lemma_inserted_hints_stem_from_records_within_range(
    chunks: Seq<HintChunk>,
    range: PointRange,
    excerpts: Seq<Excerpt>,
    excerpt_id: ExcerptId,
    first_id: usize,
    i: int,
)
    requires
        0 <= i < hints_to_insert(chunks, range, excerpts, excerpt_id, first_id).len(),
    ensures
        ({
            let inlay = hints_to_insert(chunks, range, excerpts, excerpt_id, first_id)[i];
            &&& flattened(chunks).contains(inlay.hint)
            &&& range.start.le(inlay.hint.position) && inlay.hint.position.le(range.end)
            &&& inlay.position.position == inlay.hint.position
            &&& inlay.position.excerpt_id == excerpt_id
            &&& buffer_for_excerpt(excerpts, excerpt_id) == Some(inlay.position.buffer_id)
            &&& inlay.id == crate::inlay::InlayId::Hint((first_id + i) as usize)
        }),
{
    let distinct = collapse_runs(flattened(chunks));
    let inside = distinct.filter(is_within(range));
    distinct.lemma_filter_pred(is_within(range), i);
    assert(inside.contains(inside[i]));
    distinct.lemma_filter_contains_rev(is_within(range), inside[i]);
    let k = choose|k: int| 0 <= k < distinct.len() && distinct[k] == inside[i];
    lemma_collapsed_records_are_records(flattened(chunks), k);
}

/// What a merged response does: the fetch leaves the registry and its version
/// is recorded for the document. Where the strategy of the fetch invalidates,
/// or the document was edited since the version recorded before, every
/// displayed hint is named for removal and the new hints take the place of
/// the cache; otherwise nothing is removed and the new hints are added. The
/// new hints of a kind that is shown enter the view.
pub proof fn lemma_merged_response_replaces_all_or_adds(
    data: HintData,
    buffer_id: BufferId,
    key: RowRange,
    task_id: TaskId,
    chunks: Vec<HintChunk>,
    excerpts: Seq<Excerpt>,
    visible: Seq<Inlay>,
    first_id: usize,
)
    requires
        data.is_current(buffer_id, key, task_id),
        data.may_merge(buffer_id, task_of(data.documents, buffer_id, key).unwrap()),
    ensures
        ({
            let task = task_of(data.documents, buffer_id, key).unwrap();
            let recorded = document_of(data.documents, buffer_id).snapshot_version;
            let stale = task.strategy.should_invalidate() || (recorded.is_some() && changed_since(
                task.buffer_version@,
                recorded.unwrap()@,
            ));
            let new_hints = hints_to_insert(
                chunks@,
                task.range,
                excerpts,
                task.excerpt_id,
                first_id,
            );
            let (next, splice) = data.reconciled(
                buffer_id,
                key,
                task_id,
                Ok(chunks),
                excerpts,
                visible,
                first_id,
            );
            &&& splice.is_some()
            &&& splice.unwrap().to_remove == (if stale {
                ids_of(visible.filter(InlayFilter::Hints.pred()))
            } else {
                Seq::empty()
            })
            &&& splice.unwrap().to_insert == new_hints.filter(
                InlayFilter::Allowed(data.allowed_hint_kinds).pred(),
            )
            &&& next.cached == (if stale {
                new_hints
            } else {
                data.cached + new_hints
            })
            &&& document_of(next.documents, buffer_id).snapshot_version == Some(
                task.buffer_version,
            )
            &&& task_of(next.documents, buffer_id, key).is_none()
        }),
{
}

} // verus!
