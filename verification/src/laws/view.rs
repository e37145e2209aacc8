//! The view keeps step with the cache: what it displays of hints is what is
//! cached of the kinds that are shown.

use std::ops::ControlFlow;
use vstd::prelude::*;

use crate::document::{task_of, DocumentState};
use crate::editor::EditorState;
use crate::fetch::{ProviderError, TaskId};
use crate::hint::{BufferId, ExcerptId, HintChunk, RowRange};
use crate::hint_data::HintData;
use crate::inlay::{ids_of, spliced, Inlay, InlayFilter, InlayId, InlaySpliceView};
use crate::laws::fetches::lemma_policy_outlives_fetches;
use crate::multi_buffer::{Excerpt, VisibleExcerpt};
use crate::reason::{InlayHintRefreshReason, InvalidationStrategy};
use crate::reconcile::{flattened, lemma_hints_to_insert_len};
use crate::settings::{AllowedHintKinds, InlayHintSettings};

verus! {

/// Every annotation of `inlays` is a hint whose number is below `bound`.
pub open spec fn numbered_below(inlays: Seq<Inlay>, bound: usize) -> bool {
    forall|i: int|
        0 <= i < inlays.len() ==> match (#[trigger] inlays[i]).id {
            InlayId::Hint(number) => number < bound,
            _ => false,
        }
}

/// No two annotations of `inlays` have one identity.
pub open spec fn distinct_ids(inlays: Seq<Inlay>) -> bool {
    forall|i: int, j: int|
        0 <= i < j < inlays.len() ==> (#[trigger] inlays[i]).id != (#[trigger] inlays[j]).id
}

/// The hints that `inlays` displays are the hints of `cached` whose kind
/// `kinds` lets through.
pub open spec fn displays_allowed(inlays: Seq<Inlay>, cached: Seq<Inlay>, kinds: AllowedHintKinds) -> bool {
    forall|x: Inlay|
        #![trigger inlays.contains(x)]
        #![trigger cached.contains(x)]
        (inlays.contains(x) && x.id.is_hint()) <==> (cached.contains(x) && kinds.allows(
            x.hint.kind,
        ))
}

impl EditorState {
    /// The view is in step with the cache: the hints it displays are the
    /// cached hints of the kinds that are shown; every cached hint has an
    /// identity of its own, handed out before; and while hints are hidden
    /// nothing is cached and no fetch is in flight.
    pub open spec fn in_step(self) -> bool {
        match self.inlay_hints {
            None => true,
            Some(data) => {
                &&& displays_allowed(self.inlays, data.cached, data.allowed_hint_kinds)
                &&& numbered_below(data.cached, self.next_inlay_id)
                &&& distinct_ids(data.cached)
                &&& !data.shown() ==> data.cached.len() == 0 && data.documents == Map::<
                    BufferId,
                    DocumentState,
                >::empty()
            },
        }
    }
}

proof fn lemma_filter_member(inlays: Seq<Inlay>, pred: spec_fn(Inlay) -> bool, x: Inlay)
    ensures
        inlays.filter(pred).contains(x) <==> inlays.contains(x) && pred(x),
{
    if inlays.filter(pred).contains(x) {
        inlays.lemma_filter_contains_rev(pred, x);
        let i = choose|i: int| 0 <= i < inlays.filter(pred).len() && inlays.filter(pred)[i] == x;
        inlays.lemma_filter_pred(pred, i);
    }
    if inlays.contains(x) && pred(x) {
        let i = choose|i: int| 0 <= i < inlays.len() && inlays[i] == x;
        inlays.lemma_filter_contains(pred, i);
    }
}

proof fn lemma_concat_member(a: Seq<Inlay>, b: Seq<Inlay>, x: Inlay)
    ensures
        (a + b).contains(x) <==> a.contains(x) || b.contains(x),
{
    if a.contains(x) {
        let i = choose|i: int| 0 <= i < a.len() && a[i] == x;
        assert((a + b)[i] == x);
    }
    if b.contains(x) {
        let i = choose|i: int| 0 <= i < b.len() && b[i] == x;
        assert((a + b)[a.len() + i] == x);
    }
    if (a + b).contains(x) {
        let i = choose|i: int| 0 <= i < (a + b).len() && (a + b)[i] == x;
        if i < a.len() {
            assert(a[i] == x);
        } else {
            assert(b[i - a.len()] == x);
        }
    }
}

proof fn lemma_id_member(inlays: Seq<Inlay>, id: InlayId)
    ensures
        ids_of(inlays).contains(id) <==> exists|x: Inlay| #[trigger] inlays.contains(x) && x.id == id,
{
    if ids_of(inlays).contains(id) {
        let i = choose|i: int| 0 <= i < ids_of(inlays).len() && ids_of(inlays)[i] == id;
        assert(inlays.contains(inlays[i]) && inlays[i].id == id);
    }
    if exists|x: Inlay| #[trigger] inlays.contains(x) && x.id == id {
        let x = choose|x: Inlay| #[trigger] inlays.contains(x) && x.id == id;
        let i = choose|i: int| 0 <= i < inlays.len() && inlays[i] == x;
        assert(ids_of(inlays)[i] == id);
    }
}

/// What a splice leaves and brings: an annotation is displayed afterwards
/// when it was displayed and is not named for removal, or is put in.
pub proof fn lemma_spliced_member(
    inlays: Seq<Inlay>,
    to_remove: Seq<InlayId>,
    to_insert: Seq<Inlay>,
    x: Inlay,
)
    ensures
        spliced(inlays, to_remove, to_insert).contains(x) <==> (inlays.contains(x)
            && !to_remove.contains(x.id)) || to_insert.contains(x),
{
    let kept = |inlay: Inlay| !to_remove.contains(inlay.id);
    lemma_filter_member(inlays, kept, x);
    lemma_concat_member(inlays.filter(kept), to_insert, x);
}

proof fn lemma_same_id_same_inlay(inlays: Seq<Inlay>, x: Inlay, y: Inlay)
    requires
        distinct_ids(inlays),
        inlays.contains(x),
        inlays.contains(y),
        x.id == y.id,
    ensures
        x == y,
{
    let i = choose|i: int| 0 <= i < inlays.len() && inlays[i] == x;
    let j = choose|j: int| 0 <= j < inlays.len() && inlays[j] == y;
    if i < j {
        assert(inlays[i].id != inlays[j].id);
    } else if j < i {
        assert(inlays[j].id != inlays[i].id);
    }
}

proof fn lemma_filter_keeps_ids(inlays: Seq<Inlay>, pred: spec_fn(Inlay) -> bool, bound: usize)
    requires
        distinct_ids(inlays),
        numbered_below(inlays, bound),
    ensures
        distinct_ids(inlays.filter(pred)),
        numbered_below(inlays.filter(pred), bound),
    decreases inlays.len(),
{
    reveal(Seq::filter);
    if inlays.len() > 0 {
        let earlier = inlays.drop_last();
        let last = inlays.last();
        assert forall|i: int| 0 <= i < earlier.len() implies #[trigger] earlier[i] == inlays[i] by {}
        lemma_filter_keeps_ids(earlier, pred, bound);
        let kept = earlier.filter(pred);
        if pred(last) {
            assert forall|i: int, j: int| 0 <= i < j < kept.push(last).len() implies (
            #[trigger] kept.push(last)[i]).id != (#[trigger] kept.push(last)[j]).id by {
                if j == kept.len() {
                    assert(kept.contains(kept[i]));
                    lemma_filter_member(earlier, pred, kept[i]);
                    let k = choose|k: int| 0 <= k < earlier.len() && earlier[k] == kept[i];
                    assert(inlays[k].id != inlays[inlays.len() - 1].id);
                } else {
                    assert(kept[i].id != kept[j].id);
                }
            }
            assert forall|i: int| 0 <= i < kept.push(last).len() implies match (
            #[trigger] kept.push(last)[i]).id {
                InlayId::Hint(number) => number < bound,
                _ => false,
            } by {
                if i == kept.len() {
                    assert(kept.push(last)[i] == inlays[inlays.len() - 1]);
                } else {
                    assert(kept.push(last)[i] == kept[i]);
                }
            }
        }
    }
}

spec fn is_splice(decision: ControlFlow<Option<InlaySpliceView>>) -> bool {
    match decision {
        ControlFlow::Break(_) => true,
        ControlFlow::Continue(_) => false,
    }
}

spec fn splice_of(decision: ControlFlow<Option<InlaySpliceView>>) -> Option<InlaySpliceView> {
    match decision {
        ControlFlow::Break(splice) => splice,
        ControlFlow::Continue(_) => None,
    }
}

proof fn lemma_hiding_keeps_step(state: EditorState)
    requires
        state.inlay_hints.is_some(),
        state.inlay_hints.unwrap().cached.len() == 0,
        state.inlay_hints.unwrap().documents == Map::<BufferId, DocumentState>::empty(),
    ensures
        state.hiding().0.in_step(),
{
    let data = state.inlay_hints.unwrap();
    let visible = state.visible_hints();
    let ids = ids_of(visible);
    let after = state.hiding().0;
    assert forall|x: Inlay| !(#[trigger] after.inlays.contains(x) && x.id.is_hint()) by {
        lemma_spliced_member(state.inlays, ids, Seq::empty(), x);
        lemma_filter_member(state.inlays, InlayFilter::Hints.pred(), x);
        lemma_id_member(visible, x.id);
    }
}

proof fn lemma_fetching_keeps_step(
    state: EditorState,
    data: HintData,
    regions: Seq<VisibleExcerpt>,
    strategy: InvalidationStrategy,
    ignore_debounce: bool,
)
    requires
        state.with_data(data).in_step(),
        data.shown(),
    ensures
        state.fetching(data, regions, strategy, ignore_debounce).0.in_step(),
{
    lemma_policy_outlives_fetches(data, regions, strategy);
}

proof fn lemma_no_hint_is_displayed(state: EditorState, x: Inlay)
    requires
        state.in_step(),
        state.inlay_hints.is_some(),
        state.inlay_hints.unwrap().cached.len() == 0,
    ensures
        !(state.inlays.contains(x) && x.id.is_hint()),
        state.visible_hints().len() == 0,
{
    let data = state.inlay_hints.unwrap();
    if state.visible_hints().len() > 0 {
        let y = state.visible_hints()[0];
        assert(state.visible_hints().contains(y));
        lemma_filter_member(state.inlays, InlayFilter::Hints.pred(), y);
        assert(data.cached.contains(y));
    }
    if state.inlays.contains(x) && x.id.is_hint() {
        assert(data.cached.contains(x));
    }
}

proof fn lemma_kind_change_keeps_step(
    state: EditorState,
    settings: InlayHintSettings,
)
    requires
        state.in_step(),
        state.inlay_hints.is_some(),
        state.inlay_hints.unwrap().enabled,
        settings.enabled || settings.enabled == state.inlay_hints.unwrap().enabled_in_settings,
    ensures
        ({
            let (next, decision) = state.inlay_hints.unwrap().with_settings(
                settings,
                state.visible_hints(),
            );
            is_splice(decision) && state.with_data(next).with_splice(splice_of(decision)).in_step()
        }),
{
    let data = state.inlay_hints.unwrap();
    let old_kinds = data.allowed_hint_kinds;
    let kinds = settings.enabled_inlay_hint_kinds();
    let visible = state.visible_hints();
    let (next, decision) = data.with_settings(settings, visible);
    let after = state.with_data(next).with_splice(splice_of(decision));
    if kinds == old_kinds {
    } else {
        let hidden = visible.filter(InlayFilter::HiddenHints(kinds).pred());
        let ids = ids_of(hidden);
        let incoming = data.cached.filter(InlayFilter::NewlyAllowed(old_kinds, kinds).pred());
        assert(after.inlays == spliced(state.inlays, ids, incoming));
        assert forall|x: Inlay|
            #![trigger after.inlays.contains(x)]
            #![trigger next.cached.contains(x)]
            (after.inlays.contains(x) && x.id.is_hint()) <==> (next.cached.contains(x)
                && kinds.allows(x.hint.kind)) by {
            lemma_spliced_member(state.inlays, ids, incoming, x);
            lemma_filter_member(data.cached, InlayFilter::NewlyAllowed(old_kinds, kinds).pred(), x);
            lemma_filter_member(state.inlays, InlayFilter::Hints.pred(), x);
            lemma_filter_member(visible, InlayFilter::HiddenHints(kinds).pred(), x);
            lemma_id_member(hidden, x.id);
            if data.cached.contains(x) {
                let i = choose|i: int| 0 <= i < data.cached.len() && data.cached[i] == x;
                assert(data.cached[i].id.is_hint());
            }
            if ids.contains(x.id) && data.cached.contains(x) {
                let y = choose|y: Inlay| #[trigger] hidden.contains(y) && y.id == x.id;
                lemma_filter_member(visible, InlayFilter::HiddenHints(kinds).pred(), y);
                lemma_filter_member(state.inlays, InlayFilter::Hints.pred(), y);
                assert(data.cached.contains(y));
                lemma_same_id_same_inlay(data.cached, x, y);
            }
        }
    }
}

proof fn lemma_disabling_keeps_step(state: EditorState, settings: InlayHintSettings)
    requires
        state.in_step(),
        state.inlay_hints.is_some(),
        state.inlay_hints.unwrap().enabled,
        !settings.enabled,
        state.inlay_hints.unwrap().enabled_in_settings,
    ensures
        ({
            let (next, decision) = state.inlay_hints.unwrap().with_settings(
                settings,
                state.visible_hints(),
            );
            is_splice(decision) && state.with_data(next).with_splice(splice_of(decision)).in_step()
        }),
{
    let data = state.inlay_hints.unwrap();
    let visible = state.visible_hints();
    let (next, decision) = data.with_settings(settings, visible);
    let after = state.with_data(next).with_splice(splice_of(decision));
    let ids = ids_of(visible);
    assert forall|x: Inlay| !(#[trigger] after.inlays.contains(x) && x.id.is_hint()) by {
        lemma_filter_member(state.inlays, InlayFilter::Hints.pred(), x);
        if visible.len() == 0 {
            if state.inlays.contains(x) && x.id.is_hint() {
                let i = choose|i: int| 0 <= i < visible.len() && visible[i] == x;
            }
        } else {
            lemma_spliced_member(state.inlays, ids, Seq::empty(), x);
            lemma_id_member(visible, x.id);
        }
    }
}

proof fn lemma_excerpt_removal_keeps_step(state: EditorState, excerpts: Vec<ExcerptId>)
    requires
        state.in_step(),
        state.refreshes(),
    ensures
        state.refreshed(InlayHintRefreshReason::ExcerptsRemoved(excerpts), Seq::empty()).0.in_step(),
{
    let data = state.inlay_hints.unwrap();
    let kinds = data.allowed_hint_kinds;
    let leaving = state.inlays.filter(InlayFilter::HintsIn(&excerpts).pred());
    let ids = ids_of(leaving);
    let outside = InlayFilter::Outside(&excerpts).pred();
    let after = state.refreshed(InlayHintRefreshReason::ExcerptsRemoved(excerpts), Seq::empty()).0;
    let next = after.inlay_hints.unwrap();
    assert(next.cached == data.cached.filter(outside));
    lemma_filter_keeps_ids(data.cached, outside, state.next_inlay_id);
    assert forall|x: Inlay| #[trigger]
        after.inlays.contains(x) <==> state.inlays.contains(x) && !ids.contains(x.id) by {
        if ids.len() == 0 {
        } else {
            lemma_spliced_member(state.inlays, ids, Seq::empty(), x);
        }
    }
    assert forall|x: Inlay|
        #![trigger after.inlays.contains(x)]
        #![trigger next.cached.contains(x)]
        (after.inlays.contains(x) && x.id.is_hint()) <==> (next.cached.contains(x) && kinds.allows(
            x.hint.kind,
        )) by {
        assert(after.inlays.contains(x) <==> state.inlays.contains(x) && !ids.contains(x.id));
        lemma_filter_member(data.cached, outside, x);
        lemma_filter_member(state.inlays, InlayFilter::HintsIn(&excerpts).pred(), x);
        lemma_id_member(leaving, x.id);
        if data.cached.contains(x) {
            let i = choose|i: int| 0 <= i < data.cached.len() && data.cached[i] == x;
            assert(data.cached[i].id.is_hint());
        }
        if ids.contains(x.id) && data.cached.contains(x) {
            let y = choose|y: Inlay| #[trigger] leaving.contains(y) && y.id == x.id;
            lemma_filter_member(state.inlays, InlayFilter::HintsIn(&excerpts).pred(), y);
            assert(data.cached.contains(y));
            lemma_same_id_same_inlay(data.cached, x, y);
        }
    }
    if !data.shown() {
        data.cached.lemma_filter_len(outside);
        assert(next.documents =~= Map::<BufferId, DocumentState>::empty());
    }
}

/// A surface that has displayed nothing yet is in step.
pub proof fn lemma_new_surface_is_in_step(state: EditorState)
    requires
        state.inlays.len() == 0,
        match state.inlay_hints {
            Some(data) => data.cached.len() == 0 && data.documents == Map::<
                BufferId,
                DocumentState,
            >::empty(),
            None => true,
        },
    ensures
        state.in_step(),
{
}

/// A refresh keeps the view in step with the cache, whatever its reason. The
/// one exception: a change of the settings that arrives while hints are
/// disabled and shown only because the key that inverts them is held down.
pub proof fn lemma_refresh_keeps_step(
    state: EditorState,
    reason: InlayHintRefreshReason,
    regions: Seq<VisibleExcerpt>,
)
    requires
        state.in_step(),
        !(reason is SettingsChange && state.inlay_hints.is_some()
            && !state.inlay_hints.unwrap().enabled
            && state.inlay_hints.unwrap().modifiers_override),
    ensures
        state.refreshed(reason, regions).0.in_step(),
{
    if state.refreshes() {
        let data = state.inlay_hints.unwrap();
        match reason {
            InlayHintRefreshReason::ModifiersChanged(enabled) => {
                let (next, change) = data.with_modifiers_override(enabled);
                match change {
                    None => {},
                    Some(true) => {
                        assert forall|x: Inlay| !(#[trigger] state.inlays.contains(x)
                            && x.id.is_hint()) by {
                            lemma_no_hint_is_displayed(state, x);
                        }
                        lemma_fetching_keeps_step(
                            state,
                            next,
                            regions,
                            InvalidationStrategy::RefreshRequested,
                            true,
                        );
                    },
                    Some(false) => {
                        lemma_hiding_keeps_step(state.with_data(next));
                    },
                }
            },
            InlayHintRefreshReason::Toggle(enabled) => {
                if data.enabled == enabled {
                } else if enabled {
                    lemma_fetching_keeps_step(
                        state,
                        data.toggled(enabled),
                        regions,
                        InvalidationStrategy::RefreshRequested,
                        true,
                    );
                } else {
                    lemma_hiding_keeps_step(state.with_data(data.toggled(enabled)));
                }
            },
            InlayHintRefreshReason::SettingsChange(settings) => {
                let (next, decision) = data.with_settings(settings, state.visible_hints());
                let changed = settings.enabled != data.enabled_in_settings;
                let enabled = if changed {
                    settings.enabled
                } else {
                    data.enabled
                };
                if !data.enabled && !enabled {
                    assert forall|x: Inlay| !(#[trigger] state.inlays.contains(x)
                        && x.id.is_hint()) by {
                        lemma_no_hint_is_displayed(state, x);
                    }
                } else if data.enabled && enabled {
                    lemma_kind_change_keeps_step(state, settings);
                } else if data.enabled {
                    lemma_disabling_keeps_step(state, settings);
                } else {
                    assert forall|x: Inlay| !(#[trigger] state.inlays.contains(x)
                        && x.id.is_hint()) by {
                        lemma_no_hint_is_displayed(state, x);
                    }
                    lemma_fetching_keeps_step(
                        state,
                        next,
                        regions,
                        InvalidationStrategy::RefreshRequested,
                        true,
                    );
                }
            },
            InlayHintRefreshReason::ExcerptsRemoved(excerpts) => {
                lemma_excerpt_removal_keeps_step(state, excerpts);
            },
            _ => {
                if data.shown() {
                    lemma_fetching_keeps_step(
                        state,
                        data,
                        regions,
                        reason.strategy().unwrap(),
                        reason.ignores_debounce(),
                    );
                }
            },
        }
    }
}

proof fn lemma_merged_hints_are_new(
    data: HintData,
    buffer_id: BufferId,
    key: RowRange,
    task_id: TaskId,
    response: Result<Vec<HintChunk>, ProviderError>,
    excerpts: Seq<Excerpt>,
    first_id: usize,
)
    requires
        match response {
            Ok(chunks) => first_id + flattened(chunks@).len() <= usize::MAX,
            Err(_) => true,
        },
    ensures
        ({
            let merged = data.merged_hints(buffer_id, key, task_id, response, excerpts, first_id);
            &&& first_id + merged.len() <= usize::MAX
            &&& forall|i: int|
                0 <= i < merged.len() ==> (#[trigger] merged[i]).id == InlayId::Hint(
                    (first_id + i) as usize,
                )
        }),
{
    match response {
        Ok(chunks) => {
            if data.is_current(buffer_id, key, task_id) {
                let task = task_of(data.documents, buffer_id, key).unwrap();
                lemma_hints_to_insert_len(chunks@, task.range, excerpts, task.excerpt_id, first_id);
            }
        },
        Err(_) => {},
    }
}

/// The completion of a fetch keeps the view in step with the cache, whatever
/// the provider returned.
pub proof fn lemma_completion_keeps_step(
    state: EditorState,
    buffer_id: BufferId,
    key: RowRange,
    task_id: TaskId,
    response: Result<Vec<HintChunk>, ProviderError>,
    excerpts: Seq<Excerpt>,
)
    requires
        state.in_step(),
        match response {
            Ok(chunks) => state.next_inlay_id + flattened(chunks@).len() <= usize::MAX,
            Err(_) => true,
        },
    ensures
        state.completed(buffer_id, key, task_id, response, excerpts).0.in_step(),
{
    if state.inlay_hints.is_some() {
        let data = state.inlay_hints.unwrap();
        let first_id = state.next_inlay_id;
        let kinds = data.allowed_hint_kinds;
        let merged = data.merged_hints(buffer_id, key, task_id, response, excerpts, first_id);
        let (next, splice) = data.reconciled(
            buffer_id,
            key,
            task_id,
            response,
            excerpts,
            state.inlays,
            first_id,
        );
        let after = state.completed(buffer_id, key, task_id, response, excerpts).0;
        lemma_merged_hints_are_new(data, buffer_id, key, task_id, response, excerpts, first_id);
        if data.is_current(buffer_id, key, task_id) {
            assert(data.shown());
            if splice.is_some() {
                let replace = data.replaces_hints(
                    buffer_id,
                    task_of(data.documents, buffer_id, key).unwrap(),
                );
                let base = if replace {
                    Seq::<Inlay>::empty()
                } else {
                    data.cached
                };
                let leaving = state.inlays.filter(InlayFilter::Hints.pred());
                let ids = if replace {
                    ids_of(leaving)
                } else {
                    Seq::empty()
                };
                let incoming = merged.filter(InlayFilter::Allowed(kinds).pred());
                assert(Seq::<Inlay>::empty() + merged =~= merged);
                assert(next.cached == base + merged);
                assert(after.inlays == spliced(state.inlays, ids, incoming));
                assert(numbered_below(next.cached, after.next_inlay_id)) by {
                    assert forall|i: int| 0 <= i < next.cached.len() implies match (
                    #[trigger] next.cached[i]).id {
                        InlayId::Hint(number) => number < after.next_inlay_id,
                        _ => false,
                    } by {
                        if i < base.len() {
                            assert(next.cached[i] == base[i]);
                        } else {
                            assert(next.cached[i] == merged[i - base.len()]);
                        }
                    }
                }
                assert(distinct_ids(next.cached)) by {
                    assert forall|i: int, j: int| 0 <= i < j < next.cached.len() implies (
                    #[trigger] next.cached[i]).id != (#[trigger] next.cached[j]).id by {
                        if j < base.len() {
                            assert(next.cached[i] == base[i] && next.cached[j] == base[j]);
                        } else if i < base.len() {
                            assert(next.cached[i] == base[i]);
                            assert(next.cached[j] == merged[j - base.len()]);
                        } else {
                            assert(next.cached[i] == merged[i - base.len()]);
                            assert(next.cached[j] == merged[j - base.len()]);
                        }
                    }
                }
                assert forall|x: Inlay|
                    #![trigger after.inlays.contains(x)]
                    #![trigger next.cached.contains(x)]
                    (after.inlays.contains(x) && x.id.is_hint()) <==> (next.cached.contains(x)
                        && kinds.allows(x.hint.kind)) by {
                    lemma_spliced_member(state.inlays, ids, incoming, x);
                    lemma_filter_member(merged, InlayFilter::Allowed(kinds).pred(), x);
                    lemma_concat_member(base, merged, x);
                    lemma_filter_member(state.inlays, InlayFilter::Hints.pred(), x);
                    lemma_id_member(leaving, x.id);
                    if merged.contains(x) {
                        let i = choose|i: int| 0 <= i < merged.len() && merged[i] == x;
                        assert(merged[i].id.is_hint());
                    }
                    if data.cached.contains(x) {
                        let i = choose|i: int| 0 <= i < data.cached.len() && data.cached[i] == x;
                        assert(data.cached[i].id.is_hint());
                    }
                }
            }
        }
    }
}

/// When excerpts leave a view that is in step, exactly the hints seen through
/// them leave it: every other annotation, hint or not, of whatever document,
/// stays displayed, and nothing comes in.
pub proof fn lemma_excerpt_removal_takes_only_their_hints(
    state: EditorState,
    excerpts: Vec<ExcerptId>,
    regions: Seq<VisibleExcerpt>,
    x: Inlay,
)
    requires
        state.in_step(),
        state.refreshes(),
    ensures
        state.refreshed(InlayHintRefreshReason::ExcerptsRemoved(excerpts), regions).0.inlays.contains(
            x,
        ) <==> state.inlays.contains(x) && !(x.id.is_hint() && excerpts@.contains(
            x.position.excerpt_id,
        )),
{
    let data = state.inlay_hints.unwrap();
    let leaving = state.inlays.filter(InlayFilter::HintsIn(&excerpts).pred());
    let ids = ids_of(leaving);
    let after = state.refreshed(InlayHintRefreshReason::ExcerptsRemoved(excerpts), regions).0;
    if ids.len() > 0 {
        lemma_spliced_member(state.inlays, ids, Seq::empty(), x);
    }
    assert(after.inlays.contains(x) <==> state.inlays.contains(x) && !ids.contains(x.id));
    lemma_filter_member(state.inlays, InlayFilter::HintsIn(&excerpts).pred(), x);
    lemma_id_member(leaving, x.id);
    if state.inlays.contains(x) && ids.contains(x.id) {
        let y = choose|y: Inlay| #[trigger] leaving.contains(y) && y.id == x.id;
        lemma_filter_member(state.inlays, InlayFilter::HintsIn(&excerpts).pred(), y);
        assert(data.cached.contains(y));
        assert(data.cached.contains(x));
        lemma_same_id_same_inlay(data.cached, x, y);
    }
}

} // verus!
