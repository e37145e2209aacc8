//! Laws of the fetches in flight: which fetch is registered, which response
//! is taken, and how long a fetch waits.

use vstd::prelude::*;

use crate::document::task_of;
use crate::editor::EditorState;
use crate::fetch::{ProviderError, TaskId};
use crate::hint::{BufferId, HintChunk, RowRange};
use crate::hint_data::HintData;
use crate::inlay::{Inlay, InlaySpliceView};
use crate::multi_buffer::{Excerpt, VisibleExcerpt};
use crate::reason::{InlayHintRefreshReason, InvalidationStrategy};

verus! {

/// Whether `region` asks for the document `buffer_id` and the rows `key`.
pub open spec fn is_keyed(region: VisibleExcerpt, buffer_id: BufferId, key: RowRange) -> bool {
    region.buffer_id == buffer_id && region.range.row_range() == key
}

/// Fetches are numbered in the order in which they are issued.
pub proof fn lemma_fetches_are_numbered_in_order(
    data: HintData,
    regions: Seq<VisibleExcerpt>,
    strategy: InvalidationStrategy,
)
    requires
        data.next_task_id + regions.len() <= u64::MAX,
    ensures
        data.with_fetches(regions, strategy).next_task_id == data.next_task_id + regions.len(),
    decreases regions.len(),
{
    if regions.len() > 0 {
        lemma_fetches_are_numbered_in_order(data, regions.drop_last(), strategy);
    }
}

/// At most one fetch is in flight per document and row range, and it is the
/// one issued last: of the fetches issued for `regions`, the fetch for
/// `regions[i]` is still registered exactly when no later region asks for the
/// same document and rows.
pub proof fn lemma_last_issued_fetch_wins(
    data: HintData,
    regions: Seq<VisibleExcerpt>,
    strategy: InvalidationStrategy,
    i: int,
)
    requires
        0 <= i < regions.len(),
        data.next_task_id + regions.len() <= u64::MAX,
    ensures
        data.with_fetches(regions, strategy).is_current(
            regions[i].buffer_id,
            regions[i].range.row_range(),
            TaskId((data.next_task_id + i) as u64),
        ) <==> (forall|j: int|
            i < j < regions.len() ==> !is_keyed(
                #[trigger] regions[j],
                regions[i].buffer_id,
                regions[i].range.row_range(),
            )),
    decreases regions.len(),
{
    let earlier = regions.drop_last();
    let last = regions.last();
    let middle = data.with_fetches(earlier, strategy);
    let buffer_id = regions[i].buffer_id;
    let key = regions[i].range.row_range();
    lemma_fetches_are_numbered_in_order(data, earlier, strategy);
    if i == regions.len() - 1 {
    } else {
        lemma_last_issued_fetch_wins(data, earlier, strategy, i);
        if is_keyed(last, buffer_id, key) {
            assert(is_keyed(regions[regions.len() - 1], buffer_id, key));
        } else {
            assert(task_of(middle.with_fetch(last, strategy).documents, buffer_id, key) == task_of(
                middle.documents,
                buffer_id,
                key,
            ));
            assert forall|j: int| i < j < earlier.len() implies earlier[j] == regions[j] by {}
            if forall|j: int|
                i < j < earlier.len() ==> !is_keyed(#[trigger] earlier[j], buffer_id, key) {
                assert forall|j: int| i < j < regions.len() implies !is_keyed(
                    #[trigger] regions[j],
                    buffer_id,
                    key,
                ) by {
                    if j < earlier.len() {
                        assert(!is_keyed(earlier[j], buffer_id, key));
                    }
                }
            }
            if forall|j: int|
                i < j < regions.len() ==> !is_keyed(#[trigger] regions[j], buffer_id, key) {
                assert forall|j: int| i < j < earlier.len() implies !is_keyed(
                    #[trigger] earlier[j],
                    buffer_id,
                    key,
                ) by {
                    assert(!is_keyed(regions[j], buffer_id, key));
                }
            }
        }
    }
}

/// A fetch that a later refresh supersedes is no longer registered: of two
/// refreshes, one after the other, no fetch of the first stays registered
/// under a document and rows that the second asks for again. So a caller
/// that waits out a debounce before it sends a fetch sends only the last.
pub proof fn lemma_later_refresh_supersedes(
    data: HintData,
    first: Seq<VisibleExcerpt>,
    second: Seq<VisibleExcerpt>,
    strategy: InvalidationStrategy,
    later: InvalidationStrategy,
    i: int,
    j: int,
)
    requires
        0 <= i < first.len(),
        0 <= j < second.len(),
        data.next_task_id + first.len() + second.len() <= u64::MAX,
        is_keyed(second[j], first[i].buffer_id, first[i].range.row_range()),
    ensures
        !data.with_fetches(first, strategy).with_fetches(second, later).is_current(
            first[i].buffer_id,
            first[i].range.row_range(),
            TaskId((data.next_task_id + i) as u64),
        ),
{
    let middle = data.with_fetches(first, strategy);
    lemma_fetches_are_numbered_in_order(data, first, strategy);
    lemma_registered_after(middle, second, later, j);
}

/// After the fetches for `regions` are issued, the fetch registered for the
/// document and rows of `regions[j]` is one of them.
pub proof fn lemma_registered_after(
    data: HintData,
    regions: Seq<VisibleExcerpt>,
    strategy: InvalidationStrategy,
    j: int,
)
    requires
        0 <= j < regions.len(),
        data.next_task_id + regions.len() <= u64::MAX,
    ensures
        task_of(
            data.with_fetches(regions, strategy).documents,
            regions[j].buffer_id,
            regions[j].range.row_range(),
        ).is_some(),
        task_of(
            data.with_fetches(regions, strategy).documents,
            regions[j].buffer_id,
            regions[j].range.row_range(),
        ).unwrap().id.0 >= data.next_task_id,
    decreases regions.len(),
{
    let earlier = regions.drop_last();
    let last = regions.last();
    let middle = data.with_fetches(earlier, strategy);
    lemma_fetches_are_numbered_in_order(data, earlier, strategy);
    if j < regions.len() - 1 {
        lemma_registered_after(data, earlier, strategy, j);
        if !is_keyed(last, regions[j].buffer_id, regions[j].range.row_range()) {
            assert(task_of(
                middle.with_fetch(last, strategy).documents,
                regions[j].buffer_id,
                regions[j].range.row_range(),
            ) == task_of(middle.documents, regions[j].buffer_id, regions[j].range.row_range()));
        }
    }
}

/// The completion of a fetch that is no longer registered changes nothing and
/// splices nothing, whatever the provider returned.
pub proof fn lemma_stale_completion_is_ignored(
    data: HintData,
    buffer_id: BufferId,
    key: RowRange,
    task_id: TaskId,
    response: Result<Vec<HintChunk>, ProviderError>,
    excerpts: Seq<Excerpt>,
    visible: Seq<Inlay>,
    first_id: usize,
)
    requires
        !data.is_current(buffer_id, key, task_id),
    ensures
        data.reconciled(buffer_id, key, task_id, response, excerpts, visible, first_id) == (
            data,
            None::<InlaySpliceView>,
        ),
{
}

/// A fetch completes once: its completion takes it out of the registry, so a
/// second completion of the same fetch is ignored. A fetch that failed leaves
/// the cached hints as they were.
pub proof fn lemma_completion_deregisters(
    data: HintData,
    buffer_id: BufferId,
    key: RowRange,
    task_id: TaskId,
    response: Result<Vec<HintChunk>, ProviderError>,
    excerpts: Seq<Excerpt>,
    visible: Seq<Inlay>,
    first_id: usize,
)
    ensures
        !data.reconciled(buffer_id, key, task_id, response, excerpts, visible, first_id).0.is_current(
            buffer_id,
            key,
            task_id,
        ),
        response.is_err() ==> data.reconciled(
            buffer_id,
            key,
            task_id,
            response,
            excerpts,
            visible,
            first_id,
        ).0.cached == data.cached && data.reconciled(
            buffer_id,
            key,
            task_id,
            response,
            excerpts,
            visible,
            first_id,
        ).1.is_none(),
{
}

/// A fetch that follows an edit waits for the edit debounce, a fetch for a
/// margin that a scroll brought near waits for the scroll debounce, and every
/// other fetch goes out at once.
pub proof fn lemma_only_edits_and_scrolls_are_debounced(
    data: HintData,
    regions: Seq<VisibleExcerpt>,
    strategy: InvalidationStrategy,
    ignore_debounce: bool,
    i: int,
)
    requires
        0 <= i < regions.len(),
    ensures
        data.requests_for(regions, strategy, ignore_debounce)[i].debounce_ms == (if ignore_debounce {
            None
        } else if strategy is BufferEdited {
            data.invalidate_debounce
        } else if strategy is Additive && regions[i].off_screen {
            data.append_debounce
        } else {
            None
        }),
        data.requests_for(regions, strategy, ignore_debounce)[i].should_invalidate
            == strategy.should_invalidate(),
        data.requests_for(regions, strategy, ignore_debounce)[i].buffer_id == regions[i].buffer_id,
        data.requests_for(regions, strategy, ignore_debounce)[i].range == regions[i].range,
{
    lemma_policy_outlives_fetches(data, regions.take(i), strategy);
}

/// Issuing fetches changes neither the policy nor the cache.
pub proof fn lemma_policy_outlives_fetches(
    data: HintData,
    regions: Seq<VisibleExcerpt>,
    strategy: InvalidationStrategy,
)
    ensures
        data.with_fetches(regions, strategy).cached == data.cached,
        data.with_fetches(regions, strategy).enabled == data.enabled,
        data.with_fetches(regions, strategy).modifiers_override == data.modifiers_override,
        data.with_fetches(regions, strategy).enabled_in_settings == data.enabled_in_settings,
        data.with_fetches(regions, strategy).allowed_hint_kinds == data.allowed_hint_kinds,
        data.with_fetches(regions, strategy).invalidate_debounce == data.invalidate_debounce,
        data.with_fetches(regions, strategy).append_debounce == data.append_debounce,
    decreases regions.len(),
{
    if regions.len() > 0 {
        lemma_policy_outlives_fetches(data, regions.drop_last(), strategy);
    }
}

/// One refresh that fetches: the regions that were visible, and the strategy.
pub struct Round {
    pub regions: Seq<VisibleExcerpt>,
    pub strategy: InvalidationStrategy,
}

/// The state once the fetches of every round are registered, round by round.
pub open spec fn with_rounds(data: HintData, rounds: Seq<Round>) -> HintData
    decreases rounds.len(),
{
    if rounds.len() == 0 {
        data
    } else {
        with_rounds(data, rounds.drop_last()).with_fetches(
            rounds.last().regions,
            rounds.last().strategy,
        )
    }
}

/// The number of fetches that the rounds issue.
pub open spec fn issued(rounds: Seq<Round>) -> nat
    decreases rounds.len(),
{
    if rounds.len() == 0 {
        0
    } else {
        issued(rounds.drop_last()) + rounds.last().regions.len()
    }
}

/// However many refreshes follow one another, their fetches are numbered in
/// the order in which they are issued, and the policy and the cache stay as
/// they are.
pub proof fn lemma_rounds_are_numbered_in_order(data: HintData, rounds: Seq<Round>)
    requires
        data.next_task_id + issued(rounds) <= u64::MAX,
    ensures
        with_rounds(data, rounds).next_task_id == data.next_task_id + issued(rounds),
        with_rounds(data, rounds).cached == data.cached,
        with_rounds(data, rounds).enabled == data.enabled,
        with_rounds(data, rounds).modifiers_override == data.modifiers_override,
        with_rounds(data, rounds).enabled_in_settings == data.enabled_in_settings,
        with_rounds(data, rounds).allowed_hint_kinds == data.allowed_hint_kinds,
        with_rounds(data, rounds).invalidate_debounce == data.invalidate_debounce,
        with_rounds(data, rounds).append_debounce == data.append_debounce,
    decreases rounds.len(),
{
    if rounds.len() > 0 {
        let earlier = rounds.drop_last();
        lemma_rounds_are_numbered_in_order(data, earlier);
        lemma_fetches_are_numbered_in_order(
            with_rounds(data, earlier),
            rounds.last().regions,
            rounds.last().strategy,
        );
        lemma_policy_outlives_fetches(
            with_rounds(data, earlier),
            rounds.last().regions,
            rounds.last().strategy,
        );
    }
}

/// However many refreshes ask for one document and rows before any response
/// arrives, one fetch is registered for them afterwards, and it is a fetch of
/// the last refresh: no fetch of an earlier refresh is still registered under
/// a document and rows that the last refresh asks for.
pub proof fn lemma_only_the_last_round_stays_registered(
    data: HintData,
    rounds: Seq<Round>,
    j: int,
    earlier: TaskId,
)
    requires
        rounds.len() > 0,
        0 <= j < rounds.last().regions.len(),
        data.next_task_id + issued(rounds) <= u64::MAX,
        earlier.0 < data.next_task_id + issued(rounds.drop_last()),
    ensures
        task_of(
            with_rounds(data, rounds).documents,
            rounds.last().regions[j].buffer_id,
            rounds.last().regions[j].range.row_range(),
        ).is_some(),
        task_of(
            with_rounds(data, rounds).documents,
            rounds.last().regions[j].buffer_id,
            rounds.last().regions[j].range.row_range(),
        ).unwrap().id.0 >= data.next_task_id + issued(rounds.drop_last()),
        !with_rounds(data, rounds).is_current(
            rounds.last().regions[j].buffer_id,
            rounds.last().regions[j].range.row_range(),
            earlier,
        ),
{
    let middle = with_rounds(data, rounds.drop_last());
    lemma_rounds_are_numbered_in_order(data, rounds.drop_last());
    lemma_registered_after(middle, rounds.last().regions, rounds.last().strategy, j);
}

/// Of the fetches of the last of any number of refreshes, the one for
/// `regions[j]` is the registered one exactly when no later region of that
/// refresh asks for the same document and rows; it carries the strategy and
/// the debounce of the last refresh.
pub proof fn lemma_last_round_decides(
    data: HintData,
    rounds: Seq<Round>,
    ignore_debounce: bool,
    j: int,
)
    requires
        rounds.len() > 0,
        0 <= j < rounds.last().regions.len(),
        data.next_task_id + issued(rounds) <= u64::MAX,
    ensures
        ({
            let before = with_rounds(data, rounds.drop_last());
            let last = rounds.last();
            let request = before.requests_for(last.regions, last.strategy, ignore_debounce)[j];
            &&& request.task_id == TaskId((data.next_task_id + issued(rounds.drop_last()) + j) as u64)
            &&& request.should_invalidate == last.strategy.should_invalidate()
            &&& request.debounce_ms == data.debounce_for(
                last.strategy,
                ignore_debounce,
                last.regions[j].off_screen,
            )
            &&& with_rounds(data, rounds).is_current(
                last.regions[j].buffer_id,
                last.regions[j].range.row_range(),
                request.task_id,
            ) <==> (forall|i: int|
                j < i < last.regions.len() ==> !is_keyed(
                    #[trigger] last.regions[i],
                    last.regions[j].buffer_id,
                    last.regions[j].range.row_range(),
                ))
        }),
{
    let before = with_rounds(data, rounds.drop_last());
    let last = rounds.last();
    lemma_rounds_are_numbered_in_order(data, rounds.drop_last());
    lemma_last_issued_fetch_wins(before, last.regions, last.strategy, j);
    lemma_fetches_are_numbered_in_order(before, last.regions.take(j), last.strategy);
    lemma_policy_outlives_fetches(before, last.regions.take(j), last.strategy);
}

/// The arrival of one response: the fetch it answers, what the provider
/// returned, and the excerpts that compose the view at that moment.
pub struct Delivery {
    pub task_id: TaskId,
    pub response: Result<Vec<HintChunk>, ProviderError>,
    pub excerpts: Seq<Excerpt>,
}

/// The state of the surface once the responses `deliveries`, all for the
/// document `buffer_id` and the rows `key`, have arrived in their order.
pub open spec fn delivered(
    state: EditorState,
    buffer_id: BufferId,
    key: RowRange,
    deliveries: Seq<Delivery>,
) -> EditorState
    decreases deliveries.len(),
{
    if deliveries.len() == 0 {
        state
    } else {
        let last = deliveries.last();
        delivered(state, buffer_id, key, deliveries.drop_last()).completed(
            buffer_id,
            key,
            last.task_id,
            last.response,
            last.excerpts,
        ).0
    }
}

/// How many of the responses `deliveries` led to a splice of the view.
pub open spec fn splices_applied(
    state: EditorState,
    buffer_id: BufferId,
    key: RowRange,
    deliveries: Seq<Delivery>,
) -> nat
    decreases deliveries.len(),
{
    if deliveries.len() == 0 {
        0
    } else {
        let last = deliveries.last();
        let before = delivered(state, buffer_id, key, deliveries.drop_last());
        splices_applied(state, buffer_id, key, deliveries.drop_last()) + (if before.completed(
            buffer_id,
            key,
            last.task_id,
            last.response,
            last.excerpts,
        ).1.is_some() {
            1nat
        } else {
            0nat
        })
    }
}

/// Whether the fetch `task_id` is the one registered on the surface for
/// `buffer_id` under `key`.
pub open spec fn is_registered(
    state: EditorState,
    buffer_id: BufferId,
    key: RowRange,
    task_id: TaskId,
) -> bool {
    match state.inlay_hints {
        Some(data) => data.is_current(buffer_id, key, task_id),
        None => false,
    }
}

/// Responses of fetches that are not registered change nothing, however many
/// arrive and in whatever order: the cache, the versions, the fetches in
/// flight and the view stay as they are, and nothing is spliced.
pub proof fn lemma_stale_deliveries_change_nothing(
    state: EditorState,
    buffer_id: BufferId,
    key: RowRange,
    deliveries: Seq<Delivery>,
)
    requires
        forall|i: int|
            0 <= i < deliveries.len() ==> !is_registered(
                state,
                buffer_id,
                key,
                (#[trigger] deliveries[i]).task_id,
            ),
    ensures
        delivered(state, buffer_id, key, deliveries) == state,
        splices_applied(state, buffer_id, key, deliveries) == 0,
    decreases deliveries.len(),
{
    if deliveries.len() > 0 {
        let earlier = deliveries.drop_last();
        assert forall|i: int| 0 <= i < earlier.len() implies !is_registered(
            state,
            buffer_id,
            key,
            (#[trigger] earlier[i]).task_id,
        ) by {
            assert(earlier[i] == deliveries[i]);
        }
        lemma_stale_deliveries_change_nothing(state, buffer_id, key, earlier);
        assert(!is_registered(state, buffer_id, key, deliveries[deliveries.len() - 1].task_id));
    }
}

/// Of any number of responses for one document and rows, in whatever order
/// they arrive, only the response of the registered fetch is taken: the
/// surface ends in the state that this one response alone leads to, and the
/// view is spliced once at most. The responses of superseded fetches, before
/// it or after it, change nothing.
pub proof fn lemma_only_the_registered_response_is_taken(
    state: EditorState,
    buffer_id: BufferId,
    key: RowRange,
    deliveries: Seq<Delivery>,
    j: int,
)
    requires
        0 <= j < deliveries.len(),
        is_registered(state, buffer_id, key, deliveries[j].task_id),
        forall|i: int| 0 <= i < j ==> (#[trigger] deliveries[i]).task_id != deliveries[j].task_id,
    ensures
        delivered(state, buffer_id, key, deliveries) == state.completed(
            buffer_id,
            key,
            deliveries[j].task_id,
            deliveries[j].response,
            deliveries[j].excerpts,
        ).0,
        splices_applied(state, buffer_id, key, deliveries) == (if state.completed(
            buffer_id,
            key,
            deliveries[j].task_id,
            deliveries[j].response,
            deliveries[j].excerpts,
        ).1.is_some() {
            1nat
        } else {
            0nat
        }),
    decreases deliveries.len(),
{
    let earlier = deliveries.drop_last();
    let last = deliveries.last();
    let taken = state.completed(
        buffer_id,
        key,
        deliveries[j].task_id,
        deliveries[j].response,
        deliveries[j].excerpts,
    ).0;
    if j == deliveries.len() - 1 {
        assert forall|i: int| 0 <= i < earlier.len() implies !is_registered(
            state,
            buffer_id,
            key,
            (#[trigger] earlier[i]).task_id,
        ) by {
            assert(earlier[i] == deliveries[i]);
        }
        lemma_stale_deliveries_change_nothing(state, buffer_id, key, earlier);
    } else {
        assert(earlier[j] == deliveries[j]);
        assert forall|i: int| 0 <= i < j implies (#[trigger] earlier[i]).task_id
            != earlier[j].task_id by {
            assert(earlier[i] == deliveries[i]);
        }
        lemma_only_the_registered_response_is_taken(state, buffer_id, key, earlier, j);
        let data = state.inlay_hints.unwrap();
        lemma_completion_deregisters(
            data,
            buffer_id,
            key,
            deliveries[j].task_id,
            deliveries[j].response,
            deliveries[j].excerpts,
            state.inlays,
            state.next_inlay_id,
        );
        assert(task_of(taken.inlay_hints.unwrap().documents, buffer_id, key).is_none());
        assert(!is_registered(taken, buffer_id, key, last.task_id));
    }
}

/// One call of a refresh: its reason and the regions that were visible.
pub struct Refresh {
    pub reason: InlayHintRefreshReason,
    pub regions: Seq<VisibleExcerpt>,
}

/// The state of the surface after the refreshes, one after the other.
pub open spec fn refreshed_all(state: EditorState, refreshes: Seq<Refresh>) -> EditorState
    decreases refreshes.len(),
{
    if refreshes.len() == 0 {
        state
    } else {
        refreshed_all(state, refreshes.drop_last()).refreshed(
            refreshes.last().reason,
            refreshes.last().regions,
        ).0
    }
}

/// The rounds of fetches that refreshes for a scroll, an edit or a request of
/// the provider make.
pub open spec fn rounds_of(refreshes: Seq<Refresh>) -> Seq<Round> {
    Seq::new(
        refreshes.len(),
        |i: int|
            Round {
                regions: refreshes[i].regions,
                strategy: refreshes[i].reason.strategy().unwrap(),
            },
    )
}

/// Any number of refreshes for a scroll, an edit or a request of the
/// provider, while hints are shown and before any response arrives, only
/// register fetches: the cache, the view, the identities and the policy stay
/// as they are.
pub proof fn lemma_fetching_refreshes_only_register(state: EditorState, refreshes: Seq<Refresh>)
    requires
        state.refreshes(),
        state.inlay_hints.unwrap().shown(),
        forall|i: int| 0 <= i < refreshes.len() ==> (#[trigger] refreshes[i]).reason.strategy().is_some(),
    ensures
        refreshed_all(state, refreshes) == state.with_data(
            with_rounds(state.inlay_hints.unwrap(), rounds_of(refreshes)),
        ),
        with_rounds(state.inlay_hints.unwrap(), rounds_of(refreshes)).shown(),
        with_rounds(state.inlay_hints.unwrap(), rounds_of(refreshes)).cached
            == state.inlay_hints.unwrap().cached,
    decreases refreshes.len(),
{
    let data = state.inlay_hints.unwrap();
    if refreshes.len() == 0 {
        assert(state.with_data(data) == state);
    } else {
        let earlier = refreshes.drop_last();
        let last = refreshes.last();
        assert forall|i: int| 0 <= i < earlier.len() implies (
        #[trigger] earlier[i]).reason.strategy().is_some() by {
            assert(earlier[i] == refreshes[i]);
        }
        lemma_fetching_refreshes_only_register(state, earlier);
        assert(rounds_of(refreshes).drop_last() =~= rounds_of(earlier));
        assert(last == refreshes[refreshes.len() - 1]);
        let middle = with_rounds(data, rounds_of(earlier));
        lemma_policy_outlives_fetches(middle, last.regions, last.reason.strategy().unwrap());
    }
}

} // verus!
