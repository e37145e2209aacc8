//! The state of the hints of one editing surface: whether and which hints are
//! shown, the fetches in flight, and the hints that are cached.

use std::ops::ControlFlow;
use vstd::prelude::*;

use crate::clock::changed_since;
use crate::document::{
    document_of, task_of, with_task, with_version, without_excerpts, without_task, DocumentState,
    FetchRegistry,
};
use crate::fetch::{FetchRequest, InlayTask, ProviderError, TaskId};
use crate::hint::{BufferId, ExcerptId, HintChunk, RowRange};
use crate::inlay::{
    all_ids, copy_inlays, ids_of, inlay_ids, retain_inlays, Inlay, InlayFilter, InlayId,
    InlaySplice,
    InlaySpliceView,
};
use crate::multi_buffer::{Excerpt, MultiBufferSnapshot, VisibleExcerpt};
use crate::reason::InvalidationStrategy;
use crate::reconcile::{flattened, hints_to_insert, hints_to_insert_from};
use crate::settings::{debounce_value, AllowedHintKinds, InlayHintSettings};

verus! {

/// The state of the hints of one editing surface.
#[derive(Debug)]
pub struct LspInlayHintData {
    enabled: bool,
    modifiers_override: bool,
    enabled_in_settings: bool,
    allowed_hint_kinds: AllowedHintKinds,
    invalidate_debounce: Option<u64>,
    append_debounce: Option<u64>,
    fetches: FetchRegistry,
    cached: Vec<Inlay>,
    next_task_id: u64,
}

/// What an `LspInlayHintData` holds.
pub struct HintData {
    /// Whether the user wants hints.
    pub enabled: bool,
    /// Whether the key that inverts `enabled` is held down.
    pub modifiers_override: bool,
    /// What configuration last said of `enabled`.
    pub enabled_in_settings: bool,
    pub allowed_hint_kinds: AllowedHintKinds,
    /// The delay of a fetch that follows an edit, in milliseconds.
    pub invalidate_debounce: Option<u64>,
    /// The delay of a fetch for a margin that a scroll brought near, in
    /// milliseconds.
    pub append_debounce: Option<u64>,
    /// Per document, the fetches in flight and the version of its hints.
    pub documents: Map<BufferId, DocumentState>,
    /// The cached hints of all documents, in the order in which they came.
    pub cached: Seq<Inlay>,
    /// The identity of the next fetch.
    pub next_task_id: u64,
}

/// What a change of the settings asks of the caller: nothing, a splice to
/// apply, or a fetch of everything visible.
pub open spec fn decision_view(decision: ControlFlow<Option<InlaySplice>>) -> ControlFlow<
    Option<InlaySpliceView>,
> {
    match decision {
        ControlFlow::Continue(_) => ControlFlow::Continue(()),
        ControlFlow::Break(None) => ControlFlow::Break(None),
        ControlFlow::Break(Some(splice)) => ControlFlow::Break(Some(splice@)),
    }
}

/// The view of an optional splice.
pub open spec fn splice_view(splice: Option<InlaySplice>) -> Option<InlaySpliceView> {
    match splice {
        Some(splice) => Some(splice@),
        None => None,
    }
}

impl HintData {
    /// The state that a surface starts with under `settings`.
    pub open spec fn from_settings(settings: InlayHintSettings) -> HintData {
        HintData {
            enabled: settings.enabled,
            modifiers_override: false,
            enabled_in_settings: settings.enabled,
            allowed_hint_kinds: settings.enabled_inlay_hint_kinds(),
            invalidate_debounce: debounce_value(settings.edit_debounce_ms),
            append_debounce: debounce_value(settings.scroll_debounce_ms),
            documents: Map::empty(),
            cached: Seq::empty(),
            next_task_id: 0,
        }
    }

    /// Whether hints are shown: the user's wish, inverted while the key is held.
    pub open spec fn shown(self) -> bool {
        self.enabled != self.modifiers_override
    }

    /// The state with no fetch in flight, no version and no cached hint.
    pub open spec fn cleared(self) -> HintData {
        HintData { documents: Map::empty(), cached: Seq::empty(), ..self }
    }

    /// The state after the key went down or up, and what follows: `None` when
    /// nothing changed, `Some(false)` when the hints are to leave the view,
    /// `Some(true)` when they are to be fetched.
    pub open spec fn with_modifiers_override(self, new_override: bool) -> (HintData, Option<bool>) {
        if self.modifiers_override == new_override {
            (self, None)
        } else {
            let next = HintData { modifiers_override: new_override, ..self };
            if next.shown() {
                (next, Some(true))
            } else {
                (next.cleared(), Some(false))
            }
        }
    }

    /// The state after the user switched hints on or off.
    pub open spec fn toggled(self, enabled: bool) -> HintData {
        if self.enabled == enabled {
            self
        } else {
            let next = HintData { enabled, modifiers_override: false, ..self };
            if enabled {
                next
            } else {
                next.cleared()
            }
        }
    }

    /// The state after configuration changed to `settings` while `visible` was
    /// displayed, and what the caller is to do.
    pub open spec fn with_settings(self, settings: InlayHintSettings, visible: Seq<Inlay>) -> (
        HintData,
        ControlFlow<Option<InlaySpliceView>>,
    ) {
        let changed = settings.enabled != self.enabled_in_settings;
        let kinds = settings.enabled_inlay_hint_kinds();
        let base = HintData {
            enabled: if changed {
                settings.enabled
            } else {
                self.enabled
            },
            enabled_in_settings: settings.enabled,
            modifiers_override: if changed {
                false
            } else {
                self.modifiers_override
            },
            invalidate_debounce: debounce_value(settings.edit_debounce_ms),
            append_debounce: debounce_value(settings.scroll_debounce_ms),
            ..self
        };
        let adopted = HintData { allowed_hint_kinds: kinds, ..base };
        if !self.enabled && !base.enabled {
            (adopted, ControlFlow::Break(None))
        } else if self.enabled && base.enabled {
            if kinds == self.allowed_hint_kinds {
                (base, ControlFlow::Break(None))
            } else {
                (
                    adopted,
                    ControlFlow::Break(
                        Some(
                            InlaySpliceView {
                                to_remove: ids_of(
                                    visible.filter(InlayFilter::HiddenHints(kinds).pred()),
                                ),
                                to_insert: self.cached.filter(
                                    InlayFilter::NewlyAllowed(self.allowed_hint_kinds, kinds).pred(),
                                ),
                            },
                        ),
                    ),
                )
            }
        } else if self.enabled {
            (
                HintData { modifiers_override: false, ..adopted }.cleared(),
                if visible.len() == 0 {
                    ControlFlow::Break(None)
                } else {
                    ControlFlow::Break(
                        Some(InlaySpliceView { to_remove: ids_of(visible), to_insert: Seq::empty() }),
                    )
                },
            )
        } else {
            (HintData { modifiers_override: false, ..adopted }, ControlFlow::Continue(()))
        }
    }

    /// How long a fetch waits before it goes out: an edit waits for the edit
    /// debounce, a scroll for the scroll debounce where the region is a margin
    /// beside the screen; everything else goes out at once.
    pub open spec fn debounce_for(
        self,
        strategy: InvalidationStrategy,
        ignore_debounce: bool,
        off_screen: bool,
    ) -> Option<u64> {
        if ignore_debounce {
            None
        } else {
            match strategy {
                InvalidationStrategy::BufferEdited => self.invalidate_debounce,
                InvalidationStrategy::Additive => if off_screen {
                    self.append_debounce
                } else {
                    None
                },
                InvalidationStrategy::RefreshRequested => None,
            }
        }
    }

    /// The task of the next fetch, if it is for `region`.
    pub open spec fn task_for(self, region: VisibleExcerpt, strategy: InvalidationStrategy) -> InlayTask {
        InlayTask {
            id: TaskId(self.next_task_id),
            row_range: region.range.row_range(),
            excerpt_id: region.excerpt_id,
            buffer_version: region.buffer_version,
            range: region.range,
            strategy,
        }
    }

    /// What the caller is handed to run the next fetch, if it is for `region`.
    pub open spec fn request_for(
        self,
        region: VisibleExcerpt,
        strategy: InvalidationStrategy,
        ignore_debounce: bool,
    ) -> FetchRequest {
        FetchRequest {
            task_id: TaskId(self.next_task_id),
            buffer_id: region.buffer_id,
            excerpt_id: region.excerpt_id,
            row_range: region.range.row_range(),
            range: region.range,
            should_invalidate: strategy.should_invalidate(),
            debounce_ms: self.debounce_for(strategy, ignore_debounce, region.off_screen),
        }
    }

    /// The state once a fetch for `region` is registered: it takes the place of
    /// the fetch that was in flight for the same document and rows.
    pub open spec fn with_fetch(self, region: VisibleExcerpt, strategy: InvalidationStrategy) -> HintData {
        HintData {
            documents: with_task(self.documents, region.buffer_id, self.task_for(region, strategy)),
            next_task_id: (self.next_task_id + 1) as u64,
            ..self
        }
    }

    /// The state once a fetch is registered for each of `regions`, in order.
    pub open spec fn with_fetches(
        self,
        regions: Seq<VisibleExcerpt>,
        strategy: InvalidationStrategy,
    ) -> HintData
        decreases regions.len(),
    {
        if regions.len() == 0 {
            self
        } else {
            self.with_fetches(regions.drop_last(), strategy).with_fetch(regions.last(), strategy)
        }
    }

    /// What the caller is handed for the fetches of `regions`, in order.
    pub open spec fn requests_for(
        self,
        regions: Seq<VisibleExcerpt>,
        strategy: InvalidationStrategy,
        ignore_debounce: bool,
    ) -> Seq<FetchRequest> {
        Seq::new(
            regions.len(),
            |i: int|
                self.with_fetches(regions.take(i), strategy).request_for(
                    regions[i],
                    strategy,
                    ignore_debounce,
                ),
        )
    }

    /// Whether the fetch `task_id` is still the one registered for `buffer_id`
    /// under `key`: no later fetch has superseded it and it has not completed.
    pub open spec fn is_current(self, buffer_id: BufferId, key: RowRange, task_id: TaskId) -> bool {
        match task_of(self.documents, buffer_id, key) {
            Some(task) => task.id == task_id,
            None => false,
        }
    }

    /// Whether a response for `task` may be merged: the cached hints of the
    /// document do not already stand for edits that the response has not seen.
    pub open spec fn may_merge(self, buffer_id: BufferId, task: InlayTask) -> bool {
        match document_of(self.documents, buffer_id).snapshot_version {
            Some(recorded) => !changed_since(recorded@, task.buffer_version@),
            None => true,
        }
    }

    /// Whether a response for `task` replaces the hints at hand: its strategy
    /// says so, or the document was edited since the version that is recorded
    /// for its hints. Where no version is recorded yet, no edit is known of.
    pub open spec fn replaces_hints(self, buffer_id: BufferId, task: InlayTask) -> bool {
        task.strategy.should_invalidate() || match document_of(
            self.documents,
            buffer_id,
        ).snapshot_version {
            Some(recorded) => changed_since(task.buffer_version@, recorded@),
            None => false,
        }
    }

    /// The hints that the completion of the fetch `task_id` adds to the cache:
    /// none unless the fetch is still registered, succeeded and may be merged.
    pub open spec fn merged_hints(
        self,
        buffer_id: BufferId,
        key: RowRange,
        task_id: TaskId,
        response: Result<Vec<HintChunk>, ProviderError>,
        excerpts: Seq<Excerpt>,
        first_id: usize,
    ) -> Seq<Inlay> {
        if !self.is_current(buffer_id, key, task_id) {
            Seq::empty()
        } else {
            let task = task_of(self.documents, buffer_id, key).unwrap();
            match response {
                Err(_) => Seq::empty(),
                Ok(chunks) => if !self.may_merge(buffer_id, task) {
                    Seq::empty()
                } else {
                    hints_to_insert(chunks@, task.range, excerpts, task.excerpt_id, first_id)
                },
            }
        }
    }

    /// The state after the fetch `task_id` for `buffer_id` and `key` completed
    /// with `response`, and the splice for the view, if there is one. `visible`
    /// is what the view displays, `excerpts` what composes it, and `first_id`
    /// the first free identity.
    pub open spec fn reconciled(
        self,
        buffer_id: BufferId,
        key: RowRange,
        task_id: TaskId,
        response: Result<Vec<HintChunk>, ProviderError>,
        excerpts: Seq<Excerpt>,
        visible: Seq<Inlay>,
        first_id: usize,
    ) -> (HintData, Option<InlaySpliceView>) {
        if !self.is_current(buffer_id, key, task_id) {
            (self, None)
        } else {
            let task = task_of(self.documents, buffer_id, key).unwrap();
            let done = HintData { documents: without_task(self.documents, buffer_id, key), ..self };
            match response {
                Err(_) => (done, None),
                Ok(chunks) => if !self.may_merge(buffer_id, task) {
                    (done, None)
                } else {
                    let replace = self.replaces_hints(buffer_id, task);
                    let new_hints = self.merged_hints(
                        buffer_id,
                        key,
                        task_id,
                        response,
                        excerpts,
                        first_id,
                    );
                    (
                        HintData {
                            documents: with_version(done.documents, buffer_id, task.buffer_version),
                            cached: if replace {
                                new_hints
                            } else {
                                self.cached + new_hints
                            },
                            ..self
                        },
                        Some(
                            InlaySpliceView {
                                to_remove: if replace {
                                    ids_of(visible.filter(InlayFilter::Hints.pred()))
                                } else {
                                    Seq::empty()
                                },
                                to_insert: new_hints.filter(
                                    InlayFilter::Allowed(self.allowed_hint_kinds).pred(),
                                ),
                            },
                        ),
                    )
                },
            }
        }
    }

    /// The state after `excerpts` left the view: their cached hints and their
    /// fetches are gone, everything else stays.
    pub open spec fn without_excerpts(self, excerpts: Vec<ExcerptId>) -> HintData {
        HintData {
            documents: without_excerpts(self.documents, excerpts@),
            cached: self.cached.filter(InlayFilter::Outside(&excerpts).pred()),
            ..self
        }
    }
}

impl View for LspInlayHintData {
    type V = HintData;

    closed spec fn view(&self) -> HintData {
        HintData {
            enabled: self.enabled,
            modifiers_override: self.modifiers_override,
            enabled_in_settings: self.enabled_in_settings,
            allowed_hint_kinds: self.allowed_hint_kinds,
            invalidate_debounce: self.invalidate_debounce,
            append_debounce: self.append_debounce,
            documents: self.fetches@,
            cached: self.cached@,
            next_task_id: self.next_task_id,
        }
    }
}

impl LspInlayHintData {
    /// No document has two fetch states, and no document two fetches in flight
    /// under one row range.
    pub closed spec fn wf(&self) -> bool {
        self.fetches.wf()
    }

    /// The state that a surface starts with under `settings`: nothing cached,
    /// nothing in flight.
    pub fn new(settings: InlayHintSettings) -> (r: Self)
        ensures
            r.wf(),
            r@ == HintData::from_settings(settings),
    {
        LspInlayHintData {
            modifiers_override: false,
            enabled: settings.enabled,
            enabled_in_settings: settings.enabled,
            fetches: FetchRegistry::new(),
            cached: Vec::new(),
            invalidate_debounce: debounce_value(settings.edit_debounce_ms),
            append_debounce: debounce_value(settings.scroll_debounce_ms),
            allowed_hint_kinds: settings.enabled_inlay_hint_kinds(),
            next_task_id: 0,
        }
    }

    /// Whether the user wants hints.
    pub fn enabled(&self) -> (r: bool)
        ensures
            r == self@.enabled,
    {
        self.enabled
    }

    /// Whether hints are shown: the user's wish, inverted while the key that
    /// overrides it is held down.
    pub fn shown(&self) -> (r: bool)
        ensures
            r == self@.shown(),
    {
        self.enabled != self.modifiers_override
    }

    /// The kinds of hint that are shown.
    pub fn allowed_hint_kinds(&self) -> (r: AllowedHintKinds)
        ensures
            r == self@.allowed_hint_kinds,
    {
        self.allowed_hint_kinds
    }

    /// The delay of a fetch that follows an edit, in milliseconds.
    pub fn invalidate_debounce(&self) -> (r: Option<u64>)
        ensures
            r == self@.invalidate_debounce,
    {
        self.invalidate_debounce
    }

    /// The delay of a fetch for a margin beside the screen, in milliseconds.
    pub fn append_debounce(&self) -> (r: Option<u64>)
        ensures
            r == self@.append_debounce,
    {
        self.append_debounce
    }

    /// The cached hints of all documents, in the order in which they came.
    pub fn cached_hints(&self) -> (r: &Vec<Inlay>)
        ensures
            r@ == self@.cached,
    {
        &self.cached
    }

    /// The identity that the next fetch gets.
    pub fn next_task_id(&self) -> (r: u64)
        ensures
            r == self@.next_task_id,
    {
        self.next_task_id
    }

    /// Reacts to the key that overrides the display of hints.
    pub fn modifiers_override(&mut self, new_override: bool) -> (r: Option<bool>)
        requires
            old(self).wf(),
        ensures
            final(self).wf(),
            final(self)@ == old(self)@.with_modifiers_override(new_override).0,
            r == old(self)@.with_modifiers_override(new_override).1,
    {
        if self.modifiers_override == new_override {
            return None;
        }
        self.modifiers_override = new_override;
        if (self.enabled && self.modifiers_override) || (!self.enabled && !self.modifiers_override) {
            self.clear();
            Some(false)
        } else {
            Some(true)
        }
    }

    /// Switches hints on or off, and says whether that changed anything.
    pub fn toggle(&mut self, enabled: bool) -> (r: bool)
        requires
            old(self).wf(),
        ensures
            final(self).wf(),
            final(self)@ == old(self)@.toggled(enabled),
            r == (old(self)@.enabled != enabled),
    {
        if self.enabled == enabled {
            return false;
        }
        self.enabled = enabled;
        self.modifiers_override = false;
        if !enabled {
            self.clear();
        }
        true
    }

    /// Forgets every fetch in flight, every version and every cached hint.
    pub fn clear(&mut self)
        ensures
            final(self).wf(),
            final(self)@ == old(self)@.cleared(),
    {
        self.fetches.clear();
        self.cached.clear();
    }

    /// Adopts changed settings while `visible_hints` are displayed, and says
    /// what the caller is to do: nothing (`Break(None)`), apply a splice
    /// without fetching (`Break(Some(..))`), or fetch everything visible
    /// (`Continue`).
    pub fn update_settings(
        &mut self,
        new_hint_settings: InlayHintSettings,
        visible_hints: Vec<Inlay>,
    ) -> (r: ControlFlow<Option<InlaySplice>>)
        requires
            old(self).wf(),
        ensures
            final(self).wf(),
            final(self)@ == old(self)@.with_settings(new_hint_settings, visible_hints@).0,
            decision_view(r) == old(self)@.with_settings(new_hint_settings, visible_hints@).1,
    {
        let old_enabled = self.enabled;
        if new_hint_settings.enabled != self.enabled_in_settings {
            self.enabled = new_hint_settings.enabled;
            self.enabled_in_settings = new_hint_settings.enabled;
            self.modifiers_override = false;
        }
        self.invalidate_debounce = debounce_value(new_hint_settings.edit_debounce_ms);
        self.append_debounce = debounce_value(new_hint_settings.scroll_debounce_ms);
        let new_allowed_hint_kinds = new_hint_settings.enabled_inlay_hint_kinds();
        match (old_enabled, self.enabled) {
            (false, false) => {
                self.allowed_hint_kinds = new_allowed_hint_kinds;
                ControlFlow::Break(None)
            },
            (true, true) => {
                if new_allowed_hint_kinds == self.allowed_hint_kinds {
                    ControlFlow::Break(None)
                } else {
                    let to_remove = inlay_ids(
                        &visible_hints,
                        InlayFilter::HiddenHints(new_allowed_hint_kinds),
                    );
                    let to_insert = copy_inlays(
                        &self.cached,
                        InlayFilter::NewlyAllowed(self.allowed_hint_kinds, new_allowed_hint_kinds),
                    );
                    self.allowed_hint_kinds = new_allowed_hint_kinds;
                    ControlFlow::Break(Some(InlaySplice { to_remove, to_insert }))
                }
            },
            (true, false) => {
                self.modifiers_override = false;
                self.allowed_hint_kinds = new_allowed_hint_kinds;
                self.clear();
                if visible_hints.is_empty() {
                    ControlFlow::Break(None)
                } else {
                    let to_remove = all_ids(&visible_hints);
                    ControlFlow::Break(Some(InlaySplice { to_remove, to_insert: Vec::new() }))
                }
            },
            (false, true) => {
                self.modifiers_override = false;
                self.allowed_hint_kinds = new_allowed_hint_kinds;
                ControlFlow::Continue(())
            },
        }
    }

    /// Whether the fetch `task_id` is still the one registered for `buffer_id`
    /// under `key`. A caller asks before it sends a debounced fetch out.
    pub fn is_current(&self, buffer_id: BufferId, key: RowRange, task_id: TaskId) -> (r: bool)
        requires
            self.wf(),
        ensures
            r == self@.is_current(buffer_id, key, task_id),
    {
        match self.fetches.task(buffer_id, key) {
            Some(task) => task.id == task_id,
            None => false,
        }
    }

    /// Registers a fetch for each of `regions`, in order, and hands back what
    /// the caller needs to run them.
    pub fn issue_fetches(
        &mut self,
        regions: Vec<VisibleExcerpt>,
        strategy: InvalidationStrategy,
        ignore_debounce: bool,
    ) -> (r: Vec<FetchRequest>)
        requires
            old(self).wf(),
            old(self)@.next_task_id + regions@.len() <= u64::MAX,
        ensures
            final(self).wf(),
            final(self)@ == old(self)@.with_fetches(regions@, strategy),
            r@ == old(self)@.requests_for(regions@, strategy, ignore_debounce),
    {
        let ghost all = regions@;
        let ghost start = self@;
        let mut requests: Vec<FetchRequest> = Vec::new();
        for region in it: regions
            invariant
                it.seq() == all,
                self.wf(),
                start.next_task_id + all.len() <= u64::MAX,
                self@ == start.with_fetches(all.take(it.index() as int), strategy),
                self@.next_task_id == start.next_task_id + it.index(),
                requests@ == start.requests_for(
                    all.take(it.index() as int),
                    strategy,
                    ignore_debounce,
                ),
        {
            let ghost done = all.take(it.index() as int);
            let ghost before = self@;
            let debounce_ms = if ignore_debounce {
                None
            } else {
                match strategy {
                    InvalidationStrategy::BufferEdited => self.invalidate_debounce,
                    InvalidationStrategy::Additive => if region.off_screen {
                        self.append_debounce
                    } else {
                        None
                    },
                    InvalidationStrategy::RefreshRequested => None,
                }
            };
            let task_id = TaskId(self.next_task_id);
            let request = FetchRequest {
                task_id,
                buffer_id: region.buffer_id,
                excerpt_id: region.excerpt_id,
                row_range: region.range.row_range(),
                range: region.range,
                should_invalidate: strategy.should_invalidate(),
                debounce_ms,
            };
            let buffer_id = region.buffer_id;
            let task = InlayTask {
                id: task_id,
                row_range: region.range.row_range(),
                excerpt_id: region.excerpt_id,
                buffer_version: region.buffer_version,
                range: region.range,
                strategy,
            };
            self.fetches.register(buffer_id, task);
            self.next_task_id = self.next_task_id + 1;
            requests.push(request);
            proof {
                let next = all.take(it.index() as int + 1);
                assert(next.drop_last() == done);
                assert(next.last() == region);
                assert(self@ == before.with_fetch(region, strategy));
                assert(request == before.request_for(region, strategy, ignore_debounce));
                assert forall|i: int| 0 <= i < next.len() implies #[trigger] next.take(i)
                    == all.take(i) by {}
                assert forall|i: int| 0 <= i < done.len() implies #[trigger] done.take(i)
                    == all.take(i) by {}
                assert(next.take(done.len() as int) == done);
                assert(requests@ =~= start.requests_for(next, strategy, ignore_debounce));
            }
        }
        assert(all.take(all.len() as int) == all);
        requests
    }

    /// Takes in the completion of the fetch `task_id` for `buffer_id` and
    /// `key`. A fetch that is no longer registered leaves everything as it is.
    /// A registered fetch leaves the registry; where it succeeded, and the
    /// cached hints of the document are not ahead of it, its hints enter the
    /// cache and the splice for the view is handed back. Where its strategy
    /// invalidates, or the document was edited since the version recorded for
    /// it, the hints take the place of every hint cached and displayed;
    /// otherwise they are added.
    pub fn reconcile(
        &mut self,
        buffer_id: BufferId,
        key: RowRange,
        task_id: TaskId,
        response: Result<Vec<HintChunk>, ProviderError>,
        snapshot: &MultiBufferSnapshot,
        visible: &Vec<Inlay>,
        next_inlay_id: &mut usize,
    ) -> (r: Option<InlaySplice>)
        requires
            old(self).wf(),
            match response {
                Ok(chunks) => *old(next_inlay_id) + flattened(chunks@).len() <= usize::MAX,
                Err(_) => true,
            },
        ensures
            final(self).wf(),
            final(self)@ == old(self)@.reconciled(
                buffer_id,
                key,
                task_id,
                response,
                snapshot@,
                visible@,
                *old(next_inlay_id),
            ).0,
            splice_view(r) == old(self)@.reconciled(
                buffer_id,
                key,
                task_id,
                response,
                snapshot@,
                visible@,
                *old(next_inlay_id),
            ).1,
            *final(next_inlay_id) == *old(next_inlay_id) + old(self)@.merged_hints(
                buffer_id,
                key,
                task_id,
                response,
                snapshot@,
                *old(next_inlay_id),
            ).len(),
    {
        if !self.is_current(buffer_id, key, task_id) {
            return None;
        }
        let task = self.fetches.deregister(buffer_id, key).unwrap();
        let chunks = match response {
            Err(_) => {
                return None;
            },
            Ok(chunks) => chunks,
        };
        let (may_merge, replace) = match self.fetches.snapshot_version(buffer_id) {
            Some(recorded) => (
                !recorded.changed_since(&task.buffer_version),
                task.strategy.should_invalidate() || task.buffer_version.changed_since(recorded),
            ),
            None => (true, task.strategy.should_invalidate()),
        };
        if !may_merge {
            return None;
        }
        let mut new_hints = hints_to_insert_from(
            chunks,
            task.range,
            snapshot,
            task.excerpt_id,
            next_inlay_id,
        );
        let to_insert = copy_inlays(&new_hints, InlayFilter::Allowed(self.allowed_hint_kinds));
        let to_remove = if replace {
            self.cached.clear();
            inlay_ids(visible, InlayFilter::Hints)
        } else {
            Vec::new()
        };
        let ghost added = new_hints@;
        self.cached.append(&mut new_hints);
        assert(Seq::<Inlay>::empty() + added =~= added);
        self.fetches.set_snapshot_version(buffer_id, task.buffer_version);
        Some(InlaySplice { to_remove, to_insert })
    }

    /// Takes in that `excerpts` left the view: drops their cached hints and
    /// their fetches, and hands back the splice that takes their hints out of
    /// `visible`, if any of them is displayed.
    pub fn remove_excerpts(&mut self, excerpts: &Vec<ExcerptId>, visible: &Vec<Inlay>) -> (r: Option<
        InlaySplice,
    >)
        requires
            old(self).wf(),
        ensures
            final(self).wf(),
            final(self)@ == old(self)@.without_excerpts(*excerpts),
            splice_view(r) == removal_of(
                ids_of(visible@.filter(InlayFilter::HintsIn(excerpts).pred())),
            ),
    {
        self.fetches.remove_excerpts(excerpts);
        let mut cached: Vec<Inlay> = Vec::new();
        std::mem::swap(&mut self.cached, &mut cached);
        self.cached = retain_inlays(cached, InlayFilter::Outside(excerpts));
        let to_remove = inlay_ids(visible, InlayFilter::HintsIn(excerpts));
        if to_remove.is_empty() {
            None
        } else {
            Some(InlaySplice { to_remove, to_insert: Vec::new() })
        }
    }
}

/// The splice that takes `to_remove` out of the view; none where there is
/// nothing to take out.
pub open spec fn removal_of(to_remove: Seq<InlayId>) -> Option<InlaySpliceView> {
    if to_remove.len() == 0 {
        None
    } else {
        Some(InlaySpliceView { to_remove, to_insert: Seq::empty() })
    }
}

} // verus!
