//! The editing surface as far as hints go: it takes in the events that ask for
//! a refresh and the completions of fetches, and hands back the fetches to run
//! and the splices to apply to the view.

use std::ops::ControlFlow;
use vstd::prelude::*;

use crate::fetch::{FetchRequest, ProviderError, TaskId};
use crate::hint::{BufferId, HintChunk, RowRange};
use crate::hint_data::{removal_of, splice_view, HintData, LspInlayHintData};
use crate::inlay::{
    apply_splice, clone_inlays, copy_inlays, ids_of, inlay_ids, spliced, Inlay, InlayFilter,
    InlayId, InlaySplice, InlaySpliceView,
};
use crate::multi_buffer::{Excerpt, MultiBufferSnapshot, VisibleExcerpt};
use crate::reason::{InlayHintRefreshReason, InvalidationStrategy};
use crate::reconcile::flattened;
use crate::settings::InlayHintSettings;

verus! {

/// An editing surface, as far as its hints go.
#[derive(Debug)]
pub struct Editor {
    full_mode: bool,
    has_provider: bool,
    inlay_hints: Option<LspInlayHintData>,
    inline_values_enabled: bool,
    next_inlay_id: usize,
    inlays: Vec<Inlay>,
}

/// What an `Editor` holds.
pub struct EditorState {
    /// Whether the surface is a full editor; no other surface shows hints.
    pub full_mode: bool,
    /// Whether a hint provider is attached.
    pub has_provider: bool,
    /// The state of the hints, once the surface supports them.
    pub inlay_hints: Option<HintData>,
    pub inline_values_enabled: bool,
    /// The first identity that no annotation has had yet.
    pub next_inlay_id: usize,
    /// The annotations that the view displays, hints and others.
    pub inlays: Seq<Inlay>,
}

/// What a refresh asks of the caller.
#[derive(Debug)]
pub struct RefreshOutcome {
    /// The change to apply to the view, if there is one.
    pub splice: Option<InlaySplice>,
    /// The fetches to run against the provider, in the order of the regions.
    pub fetches: Vec<FetchRequest>,
}

/// What a `RefreshOutcome` holds.
pub struct RefreshOutcomeView {
    pub splice: Option<InlaySpliceView>,
    pub fetches: Seq<FetchRequest>,
}

impl View for RefreshOutcome {
    type V = RefreshOutcomeView;

    open spec fn view(&self) -> RefreshOutcomeView {
        RefreshOutcomeView { splice: splice_view(self.splice), fetches: self.fetches@ }
    }
}

/// The outcome that asks nothing of the caller.
pub open spec fn nothing_to_do() -> RefreshOutcomeView {
    RefreshOutcomeView { splice: None, fetches: Seq::empty() }
}

impl EditorState {
    /// Whether the user wants hints: the surface supports them and they are
    /// switched on.
    pub open spec fn hints_enabled(self) -> bool {
        match self.inlay_hints {
            Some(data) => data.enabled,
            None => false,
        }
    }

    /// The hints among the displayed annotations.
    pub open spec fn visible_hints(self) -> Seq<Inlay> {
        self.inlays.filter(InlayFilter::Hints.pred())
    }

    /// The state with the hint state `data`.
    pub open spec fn with_data(self, data: HintData) -> EditorState {
        EditorState { inlay_hints: Some(data), ..self }
    }

    /// The state once `splice` is applied to the view.
    pub open spec fn with_splice(self, splice: Option<InlaySpliceView>) -> EditorState {
        match splice {
            Some(splice) => EditorState {
                inlays: spliced(self.inlays, splice.to_remove, splice.to_insert),
                ..self
            },
            None => self,
        }
    }

    /// The state and the outcome once every displayed hint leaves the view.
    pub open spec fn hiding(self) -> (EditorState, RefreshOutcomeView) {
        let splice = Some(
            InlaySpliceView { to_remove: ids_of(self.visible_hints()), to_insert: Seq::empty() },
        );
        (self.with_splice(splice), RefreshOutcomeView { splice, fetches: Seq::empty() })
    }

    /// The state and the outcome once a fetch is registered for each of
    /// `regions`, starting from the hint state `data`.
    pub open spec fn fetching(
        self,
        data: HintData,
        regions: Seq<VisibleExcerpt>,
        strategy: InvalidationStrategy,
        ignore_debounce: bool,
    ) -> (EditorState, RefreshOutcomeView) {
        (
            self.with_data(data.with_fetches(regions, strategy)),
            RefreshOutcomeView {
                splice: None,
                fetches: data.requests_for(regions, strategy, ignore_debounce),
            },
        )
    }

    /// Whether a refresh does anything at all: only a full editor with a
    /// provider and with hint support refreshes.
    pub open spec fn refreshes(self) -> bool {
        self.full_mode && self.has_provider && self.inlay_hints.is_some()
    }

    /// The state after a refresh for `reason` while `regions` are visible, and
    /// what the caller is to do.
    pub open spec fn refreshed(self, reason: InlayHintRefreshReason, regions: Seq<VisibleExcerpt>) -> (
        EditorState,
        RefreshOutcomeView,
    ) {
        if !self.refreshes() {
            (self, nothing_to_do())
        } else {
            let data = self.inlay_hints.unwrap();
            match reason {
                InlayHintRefreshReason::ModifiersChanged(enabled) => {
                    let (next, change) = data.with_modifiers_override(enabled);
                    match change {
                        None => (self, nothing_to_do()),
                        Some(true) => self.fetching(
                            next,
                            regions,
                            InvalidationStrategy::RefreshRequested,
                            true,
                        ),
                        Some(false) => self.with_data(next).hiding(),
                    }
                },
                InlayHintRefreshReason::Toggle(enabled) => {
                    if data.enabled == enabled {
                        (self, nothing_to_do())
                    } else if enabled {
                        self.fetching(
                            data.toggled(enabled),
                            regions,
                            InvalidationStrategy::RefreshRequested,
                            true,
                        )
                    } else {
                        self.with_data(data.toggled(enabled)).hiding()
                    }
                },
                InlayHintRefreshReason::SettingsChange(settings) => {
                    let (next, decision) = data.with_settings(settings, self.visible_hints());
                    match decision {
                        ControlFlow::Break(splice) => (
                            self.with_data(next).with_splice(splice),
                            RefreshOutcomeView { splice, fetches: Seq::empty() },
                        ),
                        ControlFlow::Continue(_) => self.fetching(
                            next,
                            regions,
                            InvalidationStrategy::RefreshRequested,
                            true,
                        ),
                    }
                },
                InlayHintRefreshReason::ExcerptsRemoved(excerpts) => {
                    let splice = removal_of(
                        ids_of(self.inlays.filter(InlayFilter::HintsIn(&excerpts).pred())),
                    );
                    (
                        self.with_data(data.without_excerpts(excerpts)).with_splice(splice),
                        RefreshOutcomeView { splice, fetches: Seq::empty() },
                    )
                },
                _ => {
                    if data.shown() {
                        self.fetching(
                            data,
                            regions,
                            reason.strategy().unwrap(),
                            reason.ignores_debounce(),
                        )
                    } else {
                        (self, nothing_to_do())
                    }
                },
            }
        }
    }

    /// The state after the fetch `task_id` for `buffer_id` and `key` completed
    /// with `response` while the view was composed of `excerpts`, and the
    /// splice that was applied to the view, if there was one.
    pub open spec fn completed(
        self,
        buffer_id: BufferId,
        key: RowRange,
        task_id: TaskId,
        response: Result<Vec<HintChunk>, ProviderError>,
        excerpts: Seq<Excerpt>,
    ) -> (EditorState, Option<InlaySpliceView>) {
        match self.inlay_hints {
            None => (self, None),
            Some(data) => {
                let (next, splice) = data.reconciled(
                    buffer_id,
                    key,
                    task_id,
                    response,
                    excerpts,
                    self.inlays,
                    self.next_inlay_id,
                );
                let merged = data.merged_hints(
                    buffer_id,
                    key,
                    task_id,
                    response,
                    excerpts,
                    self.next_inlay_id,
                );
                (
                    EditorState {
                        inlay_hints: Some(next),
                        next_inlay_id: (self.next_inlay_id + merged.len()) as usize,
                        ..self
                    }.with_splice(splice),
                    splice,
                )
            },
        }
    }
}

impl View for Editor {
    type V = EditorState;

    closed spec fn view(&self) -> EditorState {
        EditorState {
            full_mode: self.full_mode,
            has_provider: self.has_provider,
            inlay_hints: match self.inlay_hints {
                Some(data) => Some(data@),
                None => None,
            },
            inline_values_enabled: self.inline_values_enabled,
            next_inlay_id: self.next_inlay_id,
            inlays: self.inlays@,
        }
    }
}

impl Editor {
    /// The hint state, where there is one, is well formed.
    pub closed spec fn wf(&self) -> bool {
        match self.inlay_hints {
            Some(data) => data.wf(),
            None => true,
        }
    }

    /// A surface that displays nothing yet. It supports hints when it is given
    /// settings for them.
    pub fn new(full_mode: bool, has_provider: bool, settings: Option<InlayHintSettings>) -> (r: Self)
        ensures
            r.wf(),
            r@ == (EditorState {
                full_mode,
                has_provider,
                inlay_hints: match settings {
                    Some(settings) => Some(HintData::from_settings(settings)),
                    None => None,
                },
                inline_values_enabled: false,
                next_inlay_id: 0,
                inlays: Seq::empty(),
            }),
    {
        let inlay_hints = match settings {
            Some(settings) => Some(LspInlayHintData::new(settings)),
            None => None,
        };
        Editor {
            full_mode,
            has_provider,
            inlay_hints,
            inline_values_enabled: false,
            next_inlay_id: 0,
            inlays: Vec::new(),
        }
    }

    /// The hint state, once the surface supports hints.
    pub fn inlay_hints(&self) -> (r: Option<&LspInlayHintData>)
        requires
            self.wf(),
        ensures
            match r {
                Some(data) => data.wf() && self@.inlay_hints == Some(data@),
                None => self@.inlay_hints.is_none(),
            },
    {
        match &self.inlay_hints {
            Some(data) => Some(data),
            None => None,
        }
    }

    /// The annotations that the view displays, hints and others.
    pub fn current_inlays(&self) -> (r: &Vec<Inlay>)
        ensures
            r@ == self@.inlays,
    {
        &self.inlays
    }

    /// The first identity that no annotation has had yet.
    pub fn next_inlay_id(&self) -> (r: usize)
        ensures
            r == self@.next_inlay_id,
    {
        self.next_inlay_id
    }

    /// Whether inline values are shown.
    pub fn inline_values_enabled(&self) -> (r: bool)
        ensures
            r == self@.inline_values_enabled,
    {
        self.inline_values_enabled
    }

    /// Whether hints can be had for any document of the surface.
    /// `buffer_support` says of each document whether the provider supports
    /// hints for it.
    pub fn supports_inlay_hints(&self, buffer_support: &Vec<bool>) -> (r: bool)
        ensures
            r == (self@.has_provider && buffer_support@.contains(true)),
    {
        if !self.has_provider {
            return false;
        }
        let mut supports = false;
        let mut i: usize = 0;
        while i < buffer_support.len()
            invariant
                i <= buffer_support.len(),
                supports == buffer_support@.take(i as int).contains(true),
            decreases buffer_support.len() - i,
        {
            proof {
                let done = buffer_support@.take(i as int);
                let next = buffer_support@.take(i as int + 1);
                assert(next == done.push(buffer_support@[i as int]));
                if done.contains(true) {
                    let j = choose|j: int| 0 <= j < done.len() && done[j] == true;
                    assert(next[j] == true);
                }
                if buffer_support@[i as int] {
                    assert(next[i as int] == true);
                }
                if next.contains(true) && !buffer_support@[i as int] {
                    let j = choose|j: int| 0 <= j < next.len() && next[j] == true;
                    assert(done[j] == true);
                }
            }
            supports = supports || buffer_support[i];
            i = i + 1;
        }
        assert(buffer_support@.take(buffer_support.len() as int) == buffer_support@);
        supports
    }

    /// Switches the display of inline values over.
    pub fn toggle_inline_values(&mut self)
        ensures
            final(self).wf() == old(self).wf(),
            final(self)@ == (EditorState {
                inline_values_enabled: !old(self)@.inline_values_enabled,
                ..old(self)@
            }),
    {
        self.inline_values_enabled = !self.inline_values_enabled;
    }

    /// Whether the user wants hints.
    pub fn inlay_hints_enabled(&self) -> (r: bool)
        ensures
            r == self@.hints_enabled(),
    {
        match &self.inlay_hints {
            Some(data) => data.enabled(),
            None => false,
        }
    }

    /// The hints that the view displays.
    pub fn visible_inlay_hints(&self) -> (r: Vec<Inlay>)
        ensures
            r@ == self@.visible_hints(),
    {
        copy_inlays(&self.inlays, InlayFilter::Hints)
    }

    /// Applies a splice to the view.
    pub fn splice_inlays(&mut self, to_remove: &Vec<InlayId>, to_insert: Vec<Inlay>)
        ensures
            final(self).wf() == old(self).wf(),
            final(self)@ == (EditorState {
                inlays: spliced(old(self)@.inlays, to_remove@, to_insert@),
                ..old(self)@
            }),
    {
        let mut inlays: Vec<Inlay> = Vec::new();
        std::mem::swap(&mut self.inlays, &mut inlays);
        self.inlays = apply_splice(inlays, to_remove, to_insert);
    }

    /// Switches hints over, as the user's command does.
    pub fn toggle_inlay_hints(&mut self, visible_excerpts: Vec<VisibleExcerpt>) -> (r: RefreshOutcome)
        requires
            old(self).wf(),
            old(self).can_issue(visible_excerpts@.len()),
        ensures
            final(self).wf(),
            final(self)@ == old(self)@.refreshed(
                InlayHintRefreshReason::Toggle(!old(self)@.hints_enabled()),
                visible_excerpts@,
            ).0,
            r@ == old(self)@.refreshed(
                InlayHintRefreshReason::Toggle(!old(self)@.hints_enabled()),
                visible_excerpts@,
            ).1,
    {
        let enabled = self.inlay_hints_enabled();
        self.refresh_inlay_hints(InlayHintRefreshReason::Toggle(!enabled), visible_excerpts)
    }

    /// Whether `count` more fetches can be numbered.
    pub open spec fn can_issue(&self, count: nat) -> bool {
        match self@.inlay_hints {
            Some(data) => data.next_task_id + count <= u64::MAX,
            None => true,
        }
    }

    /// Whether the hints of `response` can all be given an identity.
    pub open spec fn can_place(&self, response: Result<Vec<HintChunk>, ProviderError>) -> bool {
        match response {
            Ok(chunks) => self@.next_inlay_id + flattened(chunks@).len() <= usize::MAX,
            Err(_) => true,
        }
    }

    fn remove_visible_hints(&mut self) -> (r: RefreshOutcome)
        ensures
            final(self).wf() == old(self).wf(),
            final(self)@ == old(self)@.hiding().0,
            r@ == old(self)@.hiding().1,
    {
        let to_remove = inlay_ids(&self.inlays, InlayFilter::Hints);
        self.splice_inlays(&to_remove, Vec::new());
        RefreshOutcome {
            splice: Some(InlaySplice { to_remove, to_insert: Vec::new() }),
            fetches: Vec::new(),
        }
    }

    fn apply(&mut self, splice: &Option<InlaySplice>)
        ensures
            final(self).wf() == old(self).wf(),
            final(self)@ == old(self)@.with_splice(splice_view(*splice)),
    {
        match splice {
            Some(splice) => {
                let to_insert = clone_inlays(&splice.to_insert);
                self.splice_inlays(&splice.to_remove, to_insert);
            },
            None => {},
        }
    }

    /// Takes in an event that asks for a refresh while `visible_excerpts` are
    /// on screen or near it. The hint state moves on, the view is spliced where
    /// hints leave or enter it without a fetch, and the fetches to run are
    /// handed back.
    pub fn refresh_inlay_hints(
        &mut self,
        reason: InlayHintRefreshReason,
        visible_excerpts: Vec<VisibleExcerpt>,
    ) -> (r: RefreshOutcome)
        requires
            old(self).wf(),
            old(self).can_issue(visible_excerpts@.len()),
        ensures
            final(self).wf(),
            final(self)@ == old(self)@.refreshed(reason, visible_excerpts@).0,
            r@ == old(self)@.refreshed(reason, visible_excerpts@).1,
    {
        if !self.full_mode || !self.has_provider {
            return RefreshOutcome { splice: None, fetches: Vec::new() };
        }
        let ignore_debounce = reason.ignores_debounce();
        let strategy = match &mut self.inlay_hints {
            None => {
                return RefreshOutcome { splice: None, fetches: Vec::new() };
            },
            Some(inlay_hints) => match reason {
                InlayHintRefreshReason::ModifiersChanged(enabled) => {
                    match inlay_hints.modifiers_override(enabled) {
                        Some(enabled) => {
                            if enabled {
                                InvalidationStrategy::RefreshRequested
                            } else {
                                return self.remove_visible_hints();
                            }
                        },
                        None => {
                            return RefreshOutcome { splice: None, fetches: Vec::new() };
                        },
                    }
                },
                InlayHintRefreshReason::Toggle(enabled) => {
                    if inlay_hints.toggle(enabled) {
                        if enabled {
                            InvalidationStrategy::RefreshRequested
                        } else {
                            return self.remove_visible_hints();
                        }
                    } else {
                        return RefreshOutcome { splice: None, fetches: Vec::new() };
                    }
                },
                InlayHintRefreshReason::SettingsChange(new_settings) => {
                    let visible_hints = copy_inlays(&self.inlays, InlayFilter::Hints);
                    match inlay_hints.update_settings(new_settings, visible_hints) {
                        ControlFlow::Break(splice) => {
                            self.apply(&splice);
                            return RefreshOutcome { splice, fetches: Vec::new() };
                        },
                        ControlFlow::Continue(_) => InvalidationStrategy::RefreshRequested,
                    }
                },
                InlayHintRefreshReason::ExcerptsRemoved(excerpts_removed) => {
                    let splice = inlay_hints.remove_excerpts(&excerpts_removed, &self.inlays);
                    self.apply(&splice);
                    return RefreshOutcome { splice, fetches: Vec::new() };
                },
                InlayHintRefreshReason::NewLinesShown => {
                    if !inlay_hints.shown() {
                        return RefreshOutcome { splice: None, fetches: Vec::new() };
                    }
                    InvalidationStrategy::Additive
                },
                InlayHintRefreshReason::BufferEdited(_) => {
                    if !inlay_hints.shown() {
                        return RefreshOutcome { splice: None, fetches: Vec::new() };
                    }
                    InvalidationStrategy::BufferEdited
                },
                InlayHintRefreshReason::RefreshRequested(_) => {
                    if !inlay_hints.shown() {
                        return RefreshOutcome { splice: None, fetches: Vec::new() };
                    }
                    InvalidationStrategy::RefreshRequested
                },
            },
        };
        let fetches = match &mut self.inlay_hints {
            Some(inlay_hints) => inlay_hints.issue_fetches(
                visible_excerpts,
                strategy,
                ignore_debounce,
            ),
            None => Vec::new(),
        };
        RefreshOutcome { splice: None, fetches }
    }

    /// Whether the fetch `task_id` is still the one registered for `buffer_id`
    /// under `key`. A caller asks before it sends a debounced fetch out: a
    /// fetch that a later one has superseded is not sent.
    pub fn is_fetch_current(&self, buffer_id: BufferId, key: RowRange, task_id: TaskId) -> (r: bool)
        requires
            self.wf(),
        ensures
            r == (match self@.inlay_hints {
                Some(data) => data.is_current(buffer_id, key, task_id),
                None => false,
            }),
    {
        match &self.inlay_hints {
            Some(data) => data.is_current(buffer_id, key, task_id),
            None => false,
        }
    }

    /// Takes in the completion of the fetch `task_id` for `buffer_id` and
    /// `key`, with what the provider returned and the excerpts that compose
    /// the view now. The splice that was applied to the view is handed back.
    pub fn complete_fetch(
        &mut self,
        buffer_id: BufferId,
        key: RowRange,
        task_id: TaskId,
        response: Result<Vec<HintChunk>, ProviderError>,
        snapshot: &MultiBufferSnapshot,
    ) -> (r: Option<InlaySplice>)
        requires
            old(self).wf(),
            old(self).can_place(response),
        ensures
            final(self).wf(),
            final(self)@ == old(self)@.completed(buffer_id, key, task_id, response, snapshot@).0,
            splice_view(r) == old(self)@.completed(buffer_id, key, task_id, response, snapshot@).1,
    {
        let splice = match &mut self.inlay_hints {
            Some(inlay_hints) => inlay_hints.reconcile(
                buffer_id,
                key,
                task_id,
                response,
                snapshot,
                &self.inlays,
                &mut self.next_inlay_id,
            ),
            None => None,
        };
        self.apply(&splice);
        splice
    }
}

} // verus!
