//! From what a provider returned to the hints that enter the cache: the
//! records in the order received, runs of equal records collapsed, those
//! outside the queried span dropped, and the rest placed in the view.

use itertools::Itertools;
use vstd::prelude::*;

use crate::hint::{ExcerptId, HintChunk, InlayHint, PointRange};
use crate::inlay::{Inlay, InlayId};
use crate::multi_buffer::{anchor_in_excerpt, buffer_for_excerpt, Excerpt, MultiBufferSnapshot};

verus! {

/// The records of one chunk.
pub open spec fn chunk_hints() -> spec_fn(HintChunk) -> Seq<InlayHint> {
    |chunk: HintChunk| chunk.hints@
}

/// The records of all chunks, in the order in which they were received.
pub open spec fn flattened(chunks: Seq<HintChunk>) -> Seq<InlayHint> {
    chunks.map_values(chunk_hints()).flatten()
}

/// `hints` with every run of equal records reduced to its first record. Two
/// records are equal when they hold the same values; equal records that other
/// records separate all stay.
pub open spec fn collapse_runs(hints: Seq<InlayHint>) -> Seq<InlayHint>
    decreases hints.len(),
{
    if hints.len() == 0 {
        hints
    } else {
        let kept = collapse_runs(hints.drop_last());
        if kept.len() > 0 && kept.last()@ == hints.last()@ {
            kept
        } else {
            kept.push(hints.last())
        }
    }
}

/// Selects the records whose position lies in `range`, its ends included.
pub open spec fn is_within(range: PointRange) -> spec_fn(InlayHint) -> bool {
    |hint: InlayHint| range.contains(hint.position)
}

/// `hints` as annotations of the view, each placed where its position lies in
/// the excerpt `excerpt_id`, with consecutive identities from `first_id` on.
/// None of them can be placed once the view holds no such excerpt.
pub open spec fn projected(
    hints: Seq<InlayHint>,
    excerpts: Seq<Excerpt>,
    excerpt_id: ExcerptId,
    first_id: usize,
) -> Seq<Inlay> {
    if buffer_for_excerpt(excerpts, excerpt_id).is_some() {
        Seq::new(
            hints.len(),
            |i: int|
                Inlay {
                    id: InlayId::Hint((first_id + i) as usize),
                    position: anchor_in_excerpt(excerpts, excerpt_id, hints[i].position).unwrap(),
                    hint: hints[i],
                },
        )
    } else {
        Seq::empty()
    }
}

/// The hints that a response adds to the cache.
pub open spec fn hints_to_insert(
    chunks: Seq<HintChunk>,
    range: PointRange,
    excerpts: Seq<Excerpt>,
    excerpt_id: ExcerptId,
    first_id: usize,
) -> Seq<Inlay> {
    projected(
        collapse_runs(flattened(chunks)).filter(is_within(range)),
        excerpts,
        excerpt_id,
        first_id,
    )
}

/// Collapsing runs never adds a record.
pub proof fn lemma_collapse_runs_len(hints: Seq<InlayHint>)
    ensures
        collapse_runs(hints).len() <= hints.len(),
    decreases hints.len(),
{
    if hints.len() > 0 {
        lemma_collapse_runs_len(hints.drop_last());
    }
}

/// A response adds no more hints than it holds records.
pub proof fn lemma_hints_to_insert_len(
    chunks: Seq<HintChunk>,
    range: PointRange,
    excerpts: Seq<Excerpt>,
    excerpt_id: ExcerptId,
    first_id: usize,
)
    ensures
        hints_to_insert(chunks, range, excerpts, excerpt_id, first_id).len() <= flattened(
            chunks,
        ).len(),
{
    lemma_collapse_runs_len(flattened(chunks));
    collapse_runs(flattened(chunks)).lemma_filter_len(is_within(range));
}

/// The records of all chunks, in the order in which they were received.
pub fn flatten_chunks(chunks: Vec<HintChunk>) -> (r: Vec<InlayHint>)
    ensures
        r@ == flattened(chunks@),
{
    let ghost all = chunks@;
    let mut out: Vec<InlayHint> = Vec::new();
    for chunk in it: chunks
        invariant
            it.seq() == all,
            out@ == flattened(all.take(it.index() as int)),
    {
        let ghost before = out@;
        let ghost inner = chunk.hints@;
        let ghost done = all.take(it.index() as int);
        for hint in jt: chunk.hints
            invariant
                jt.seq() == inner,
                out@ == before + inner.take(jt.index() as int),
        {
            out.push(hint);
            assert(inner.take(jt.index() as int + 1) == inner.take(jt.index() as int).push(hint));
        }
        proof {
            assert(inner.take(inner.len() as int) == inner);
            assert(all.take(it.index() as int + 1) == done.push(chunk));
            done.lemma_push_map_commute(chunk_hints(), chunk);
            done.map_values(chunk_hints()).lemma_flatten_push(inner);
        }
    }
    assert(all.take(all.len() as int) == all);
    out
}

/// `Itertools::dedup` on the records, compared by `InlayHint`'s `==`: the
/// adaptor hands on the first record, and then each record that differs from
/// the one it handed on last.
#[verifier::external_body]
fn dedup_consecutive(hints: Vec<InlayHint>) -> (r: Vec<InlayHint>)
    ensures
        r@ == collapse_runs(hints@),
{
    hints.into_iter().dedup().collect()
}

/// `hints` with every run of equal records reduced to its first record.
pub fn collapse_equal_runs(hints: Vec<InlayHint>) -> (r: Vec<InlayHint>)
    ensures
        r@ == collapse_runs(hints@),
{
    dedup_consecutive(hints)
}

/// The records of `hints` whose position lies in `range`, its ends included.
pub fn retain_within(hints: Vec<InlayHint>, range: PointRange) -> (r: Vec<InlayHint>)
    ensures
        r@ == hints@.filter(is_within(range)),
{
    let ghost all = hints@;
    let ghost pred = is_within(range);
    let mut out: Vec<InlayHint> = Vec::new();
    for hint in it: hints
        invariant
            it.seq() == all,
            pred == is_within(range),
            out@ == all.take(it.index() as int).filter(pred),
    {
        proof {
            all.take(it.index() as int).lemma_filter_push(hint, pred);
            assert(all.take(it.index() as int + 1) == all.take(it.index() as int).push(hint));
        }
        if range.contains(hint.position) {
            out.push(hint);
        }
    }
    assert(all.take(all.len() as int) == all);
    out
}

/// Hands out `*value` and steps it to the next number.
pub fn post_inc(value: &mut usize) -> (r: usize)
    requires
        *old(value) < usize::MAX,
    ensures
        r == *old(value),
        *final(value) == *old(value) + 1,
{
    let prev: usize = *value;
    *value = prev + 1;
    prev
}

/// Places `hints` in the view, seen through the excerpt `excerpt_id`, and gives
/// each the next free identity.
pub fn project_hints(
    hints: Vec<InlayHint>,
    snapshot: &MultiBufferSnapshot,
    excerpt_id: ExcerptId,
    next_inlay_id: &mut usize,
) -> (r: Vec<Inlay>)
    requires
        *old(next_inlay_id) + hints@.len() <= usize::MAX,
    ensures
        r@ == projected(hints@, snapshot@, excerpt_id, *old(next_inlay_id)),
        *final(next_inlay_id) == *old(next_inlay_id) + r@.len(),
{
    let ghost all = hints@;
    let ghost first_id = *next_inlay_id;
    let mut out: Vec<Inlay> = Vec::new();
    for hint in it: hints
        invariant
            it.seq() == all,
            first_id + all.len() <= usize::MAX,
            *next_inlay_id == first_id + out@.len(),
            out@ == projected(all.take(it.index() as int), snapshot@, excerpt_id, first_id),
            out@.len() == (if buffer_for_excerpt(snapshot@, excerpt_id).is_some() {
                it.index() as int
            } else {
                0
            }),
    {
        match snapshot.anchor_in_excerpt(excerpt_id, hint.position) {
            Some(position) => {
                let id: usize = post_inc(next_inlay_id);
                out.push(Inlay { id: InlayId::Hint(id), position, hint });
            },
            None => {},
        }
        assert(out@ =~= projected(
            all.take(it.index() as int + 1),
            snapshot@,
            excerpt_id,
            first_id,
        ));
    }
    assert(all.take(all.len() as int) == all);
    out
}

/// The hints that the response `chunks` adds to the cache, for a fetch that
/// asked for `range` through the excerpt `excerpt_id`.
pub fn hints_to_insert_from(
    chunks: Vec<HintChunk>,
    range: PointRange,
    snapshot: &MultiBufferSnapshot,
    excerpt_id: ExcerptId,
    next_inlay_id: &mut usize,
) -> (r: Vec<Inlay>)
    requires
        *old(next_inlay_id) + flattened(chunks@).len() <= usize::MAX,
    ensures
        r@ == hints_to_insert(chunks@, range, snapshot@, excerpt_id, *old(next_inlay_id)),
        *final(next_inlay_id) == *old(next_inlay_id) + r@.len(),
{
    let records = flatten_chunks(chunks);
    let distinct = collapse_equal_runs(records);
    let inside = retain_within(distinct, range);
    proof {
        lemma_collapse_runs_len(records@);
        distinct@.lemma_filter_len(is_within(range));
    }
    project_hints(inside, snapshot, excerpt_id, next_inlay_id)
}

} // verus!
