//! Laws of the policy: what switching hints off and on, a change of the
//! kinds shown, and the removal of excerpts do to the cache, the view and the
//! fetches.

use vstd::prelude::*;

use crate::document::{document_of, task_of, DocumentState};
use crate::editor::EditorState;
use crate::fetch::{FetchRequest, ProviderError, TaskId};
use crate::hint::{BufferId, ExcerptId, HintChunk, RowRange};
use crate::hint_data::HintData;
use crate::inlay::{ids_of, spliced, Inlay, InlayFilter, InlaySpliceView};
use crate::laws::fetches::{lemma_only_edits_and_scrolls_are_debounced, lemma_policy_outlives_fetches};
use crate::multi_buffer::{Excerpt, VisibleExcerpt};
use crate::reason::{InlayHintRefreshReason, InvalidationStrategy};
use crate::settings::InlayHintSettings;

verus! {

/// Once the identities of all displayed hints are taken out of the view, the
/// view displays no hint.
pub proof fn lemma_hiding_leaves_no_hint(inlays: Seq<Inlay>)
    ensures
        spliced(
            inlays,
            ids_of(inlays.filter(InlayFilter::Hints.pred())),
            Seq::empty(),
        ).filter(InlayFilter::Hints.pred()) == Seq::<Inlay>::empty(),
{
    let hints = InlayFilter::Hints.pred();
    let visible = inlays.filter(hints);
    let ids = ids_of(visible);
    let kept_by = |inlay: Inlay| !ids.contains(inlay.id);
    let kept = inlays.filter(kept_by);
    let after = spliced(inlays, ids, Seq::empty());
    assert(after == kept + Seq::<Inlay>::empty());
    assert(kept + Seq::<Inlay>::empty() =~= kept);
    let left = after.filter(hints);
    if left.len() > 0 {
        let y = left[0];
        after.lemma_filter_pred(hints, 0);
        assert(left.contains(y));
        after.lemma_filter_contains_rev(hints, y);
        let k = choose|k: int| 0 <= k < kept.len() && kept[k] == y;
        inlays.lemma_filter_pred(kept_by, k);
        assert(kept.contains(y));
        inlays.lemma_filter_contains_rev(kept_by, y);
        let m = choose|m: int| 0 <= m < inlays.len() && inlays[m] == y;
        inlays.lemma_filter_contains(hints, m);
        let n = choose|n: int| 0 <= n < visible.len() && visible[n] == y;
        assert(ids[n] == y.id);
        assert(ids.contains(y.id));
        assert(false);
    }
    assert(left =~= Seq::<Inlay>::empty());
}

/// Switching hints off empties the cache and the view of hints, cancels every
/// fetch, and fetches nothing.
pub proof fn lemma_toggle_off_clears_hints(editor: EditorState, regions: Seq<VisibleExcerpt>)
    requires
        editor.refreshes(),
        editor.hints_enabled(),
    ensures
        ({
            let (next, outcome) = editor.refreshed(InlayHintRefreshReason::Toggle(false), regions);
            &&& next.inlay_hints.is_some()
            &&& !next.hints_enabled()
            &&& next.inlay_hints.unwrap().cached == Seq::<Inlay>::empty()
            &&& next.inlay_hints.unwrap().documents == Map::<BufferId, DocumentState>::empty()
            &&& next.visible_hints() == Seq::<Inlay>::empty()
            &&& outcome.fetches == Seq::<FetchRequest>::empty()
        }),
{
    lemma_hiding_leaves_no_hint(editor.inlays);
}

/// Settings that disable hints empty the cache and the view of hints, cancel
/// every fetch, and fetch nothing; the kinds they name are adopted all the
/// same.
pub proof fn lemma_disabling_settings_clear_hints(
    editor: EditorState,
    settings: InlayHintSettings,
    regions: Seq<VisibleExcerpt>,
)
    requires
        editor.refreshes(),
        editor.hints_enabled(),
        editor.inlay_hints.unwrap().enabled_in_settings,
        !settings.enabled,
    ensures
        ({
            let (next, outcome) = editor.refreshed(
                InlayHintRefreshReason::SettingsChange(settings),
                regions,
            );
            &&& next.inlay_hints.is_some()
            &&& !next.hints_enabled()
            &&& next.inlay_hints.unwrap().cached == Seq::<Inlay>::empty()
            &&& next.inlay_hints.unwrap().documents == Map::<BufferId, DocumentState>::empty()
            &&& next.inlay_hints.unwrap().allowed_hint_kinds == settings.enabled_inlay_hint_kinds()
            &&& next.visible_hints() == Seq::<Inlay>::empty()
            &&& outcome.fetches == Seq::<FetchRequest>::empty()
        }),
{
    lemma_hiding_leaves_no_hint(editor.inlays);
    let visible = editor.visible_hints();
    if visible.len() == 0 {
    } else {
        assert(editor.inlays.filter(InlayFilter::Hints.pred()) == visible);
    }
}

/// Switching hints back on fetches every visible region anew, at once, and
/// asks the provider to start over.
pub proof fn lemma_toggle_on_fetches_everything(
    editor: EditorState,
    regions: Seq<VisibleExcerpt>,
    i: int,
)
    requires
        editor.refreshes(),
        !editor.hints_enabled(),
        0 <= i < regions.len(),
    ensures
        ({
            let (next, outcome) = editor.refreshed(InlayHintRefreshReason::Toggle(true), regions);
            &&& next.hints_enabled()
            &&& outcome.splice.is_none()
            &&& outcome.fetches.len() == regions.len()
            &&& outcome.fetches[i].buffer_id == regions[i].buffer_id
            &&& outcome.fetches[i].range == regions[i].range
            &&& outcome.fetches[i].should_invalidate
            &&& outcome.fetches[i].debounce_ms.is_none()
        }),
{
    let data = editor.inlay_hints.unwrap();
    lemma_policy_outlives_fetches(
        data.toggled(true),
        regions,
        InvalidationStrategy::RefreshRequested,
    );
    lemma_only_edits_and_scrolls_are_debounced(
        data.toggled(true),
        regions,
        InvalidationStrategy::RefreshRequested,
        true,
        i,
    );
}

/// Settings that enable hints again fetch every visible region anew, at once,
/// and adopt the kinds they name, whatever the kinds were before.
pub proof fn lemma_enabling_settings_fetch_everything(
    editor: EditorState,
    settings: InlayHintSettings,
    regions: Seq<VisibleExcerpt>,
    i: int,
)
    requires
        editor.refreshes(),
        !editor.hints_enabled(),
        !editor.inlay_hints.unwrap().enabled_in_settings,
        settings.enabled,
        0 <= i < regions.len(),
    ensures
        ({
            let (next, outcome) = editor.refreshed(
                InlayHintRefreshReason::SettingsChange(settings),
                regions,
            );
            &&& next.hints_enabled()
            &&& next.inlay_hints.unwrap().allowed_hint_kinds == settings.enabled_inlay_hint_kinds()
            &&& outcome.splice.is_none()
            &&& outcome.fetches.len() == regions.len()
            &&& outcome.fetches[i].buffer_id == regions[i].buffer_id
            &&& outcome.fetches[i].range == regions[i].range
            &&& outcome.fetches[i].should_invalidate
            &&& outcome.fetches[i].debounce_ms.is_none()
        }),
{
    let data = editor.inlay_hints.unwrap();
    let next = data.with_settings(settings, editor.visible_hints()).0;
    lemma_policy_outlives_fetches(next, regions, InvalidationStrategy::RefreshRequested);
    lemma_only_edits_and_scrolls_are_debounced(
        next,
        regions,
        InvalidationStrategy::RefreshRequested,
        true,
        i,
    );
}

/// A change of the kinds that are shown, with hints enabled before and after,
/// is a matter of the view alone: nothing is fetched, the cache and the
/// fetches in flight stay as they are, and the splice takes out the displayed
/// hints whose kind is no longer shown and puts in the cached hints whose kind
/// is shown now and was not before.
pub proof fn lemma_kind_filter_is_display_only(
    editor: EditorState,
    settings: InlayHintSettings,
    regions: Seq<VisibleExcerpt>,
)
    requires
        editor.refreshes(),
        editor.hints_enabled(),
        settings.enabled == editor.inlay_hints.unwrap().enabled_in_settings,
    ensures
        ({
            let data = editor.inlay_hints.unwrap();
            let kinds = settings.enabled_inlay_hint_kinds();
            let (next, outcome) = editor.refreshed(
                InlayHintRefreshReason::SettingsChange(settings),
                regions,
            );
            &&& outcome.fetches == Seq::<FetchRequest>::empty()
            &&& next.inlay_hints.is_some()
            &&& next.hints_enabled()
            &&& next.inlay_hints.unwrap().cached == data.cached
            &&& next.inlay_hints.unwrap().documents == data.documents
            &&& next.inlay_hints.unwrap().next_task_id == data.next_task_id
            &&& next.inlay_hints.unwrap().allowed_hint_kinds == kinds
            &&& next.next_inlay_id == editor.next_inlay_id
            &&& outcome.splice == (if kinds == data.allowed_hint_kinds {
                None
            } else {
                Some(
                    InlaySpliceView {
                        to_remove: ids_of(
                            editor.visible_hints().filter(InlayFilter::HiddenHints(kinds).pred()),
                        ),
                        to_insert: data.cached.filter(
                            InlayFilter::NewlyAllowed(data.allowed_hint_kinds, kinds).pred(),
                        ),
                    },
                )
            })
            &&& next.inlays == editor.with_splice(outcome.splice).inlays
        }),
{
}

/// When excerpts leave the view, only what belongs to them goes: nothing is
/// fetched; a cached hint of another excerpt stays, in its place among the
/// others; a fetch in flight for another excerpt stays registered; a fetch for
/// one of the excerpts that left is cancelled; and the versions of all
/// documents stay.
pub proof fn lemma_excerpt_removal_is_scoped(
    editor: EditorState,
    removed: Vec<ExcerptId>,
    regions: Seq<VisibleExcerpt>,
    buffer_id: BufferId,
    key: RowRange,
)
    requires
        editor.refreshes(),
    ensures
        ({
            let data = editor.inlay_hints.unwrap();
            let (next, outcome) = editor.refreshed(
                InlayHintRefreshReason::ExcerptsRemoved(removed),
                regions,
            );
            let after = next.inlay_hints.unwrap();
            &&& outcome.fetches == Seq::<FetchRequest>::empty()
            &&& after.cached == data.cached.filter(InlayFilter::Outside(&removed).pred())
            &&& task_of(after.documents, buffer_id, key) == (match task_of(
                data.documents,
                buffer_id,
                key,
            ) {
                Some(task) => if removed@.contains(task.excerpt_id) {
                    None
                } else {
                    Some(task)
                },
                None => None,
            })
            &&& document_of(after.documents, buffer_id).snapshot_version == document_of(
                data.documents,
                buffer_id,
            ).snapshot_version
            &&& after.enabled == data.enabled
            &&& after.allowed_hint_kinds == data.allowed_hint_kinds
            &&& after.next_task_id == data.next_task_id
        }),
{
}

/// A cached hint that is seen through none of the excerpts that leave keeps
/// its place: for any choice among hints, what is cached of that choice
/// outside the excerpts is the same before and after.
pub proof fn lemma_hints_outside_removed_excerpts_stay(
    data: HintData,
    removed: Vec<ExcerptId>,
    i: int,
)
    requires
        0 <= i < data.cached.len(),
        !removed@.contains(data.cached[i].position.excerpt_id),
    ensures
        data.without_excerpts(removed).cached.contains(data.cached[i]),
        forall|j: int|
            0 <= j < data.without_excerpts(removed).cached.len() ==> !removed@.contains(
                (#[trigger] data.without_excerpts(removed).cached[j]).position.excerpt_id,
            ),
{
    let outside = InlayFilter::Outside(&removed).pred();
    data.cached.lemma_filter_contains(outside, i);
    assert forall|j: int| 0 <= j < data.cached.filter(outside).len() implies !removed@.contains(
        (#[trigger] data.cached.filter(outside)[j]).position.excerpt_id,
    ) by {
        data.cached.lemma_filter_pred(outside, j);
    }
}

/// Configuration governs `enabled` only when its own switch moves: then the
/// user's wish follows it and the override is let go; otherwise the wish, as a
/// toggle left it, stands. What configuration last said is always recorded,
/// and so are its debounces.
pub proof fn lemma_settings_move_the_wish_only_with_their_switch(
    data: HintData,
    settings: InlayHintSettings,
    visible: Seq<Inlay>,
)
    ensures
        ({
            let next = data.with_settings(settings, visible).0;
            &&& next.enabled_in_settings == settings.enabled
            &&& next.invalidate_debounce == crate::settings::debounce_value(
                settings.edit_debounce_ms,
            )
            &&& next.append_debounce == crate::settings::debounce_value(settings.scroll_debounce_ms)
            &&& next.next_task_id == data.next_task_id
            &&& settings.enabled != data.enabled_in_settings ==> next.enabled == settings.enabled
                && !next.modifiers_override
            &&& settings.enabled == data.enabled_in_settings ==> next.enabled == data.enabled
        }),
{
}

/// Neither the completion of a fetch nor the removal of excerpts touches the
/// policy: whether hints are wanted, the override, the kinds and the
/// debounces stay as they are.
pub proof fn lemma_policy_outlives_completion(
    data: HintData,
    buffer_id: BufferId,
    key: RowRange,
    task_id: TaskId,
    response: Result<Vec<HintChunk>, ProviderError>,
    excerpts: Seq<Excerpt>,
    visible: Seq<Inlay>,
    first_id: usize,
    removed: Vec<ExcerptId>,
)
    ensures
        ({
            let next = data.reconciled(
                buffer_id,
                key,
                task_id,
                response,
                excerpts,
                visible,
                first_id,
            ).0;
            let without = data.without_excerpts(removed);
            &&& next.enabled == data.enabled && without.enabled == data.enabled
            &&& next.modifiers_override == data.modifiers_override && without.modifiers_override
                == data.modifiers_override
            &&& next.enabled_in_settings == data.enabled_in_settings && without.enabled_in_settings
                == data.enabled_in_settings
            &&& next.allowed_hint_kinds == data.allowed_hint_kinds && without.allowed_hint_kinds
                == data.allowed_hint_kinds
            &&& next.invalidate_debounce == data.invalidate_debounce && without.invalidate_debounce
                == data.invalidate_debounce
            &&& next.append_debounce == data.append_debounce && without.append_debounce
                == data.append_debounce
            &&& next.next_task_id == data.next_task_id && without.next_task_id == data.next_task_id
        }),
{
}

} // verus!
