//! The annotations that the view displays, and the splices that change them.

use vstd::prelude::*;

use crate::fetch::names_excerpt;
use crate::hint::{BufferId, ExcerptId, InlayHint, Point};
use crate::settings::AllowedHintKinds;

verus! {

/// Identity of a displayed annotation, by what produced it.
#[derive(Clone, Copy, Debug, PartialEq, Eq, Hash, Structural)]
pub enum InlayId {
    EditPrediction(usize),
    DebuggerValue(usize),
    Hint(usize),
    Color(usize),
}

impl InlayId {
    pub open spec fn spec_is_hint(&self) -> bool {
        *self is Hint
    }

    /// Whether the annotation is a hint.
    #[verifier::when_used_as_spec(spec_is_hint)]
    pub fn is_hint(&self) -> (r: bool)
        ensures
            r == self.spec_is_hint(),
    {
        match self {
            InlayId::Hint(_) => true,
            _ => false,
        }
    }
}

/// A position in the view: a position of a document, seen through one excerpt.
#[derive(Clone, Copy, Debug, PartialEq, Eq, Hash, Structural)]
pub struct Anchor {
    pub excerpt_id: ExcerptId,
    pub buffer_id: BufferId,
    pub position: Point,
}

/// A displayed annotation.
#[derive(Debug)]
pub struct Inlay {
    pub id: InlayId,
    pub position: Anchor,
    pub hint: InlayHint,
}

impl Clone for Inlay {
    fn clone(&self) -> (r: Self)
        ensures
            r == *self,
    {
        Inlay { id: self.id, position: self.position, hint: self.hint.clone() }
    }
}

/// One change of the displayed annotations: those to take out, by identity, and
/// those to put in.
#[derive(Debug)]
pub struct InlaySplice {
    pub to_remove: Vec<InlayId>,
    pub to_insert: Vec<Inlay>,
}

/// What an `InlaySplice` holds.
pub struct InlaySpliceView {
    pub to_remove: Seq<InlayId>,
    pub to_insert: Seq<Inlay>,
}

impl View for InlaySplice {
    type V = InlaySpliceView;

    open spec fn view(&self) -> InlaySpliceView {
        InlaySpliceView { to_remove: self.to_remove@, to_insert: self.to_insert@ }
    }
}

/// A choice among annotations.
#[derive(Clone, Copy, Debug)]
pub enum InlayFilter<'a> {
    /// The hints.
    Hints,
    /// The hints that are seen through one of the excerpts.
    HintsIn(&'a Vec<ExcerptId>),
    /// The annotations that are seen through none of the excerpts.
    Outside(&'a Vec<ExcerptId>),
    /// The annotations whose kind the filter lets through.
    Allowed(AllowedHintKinds),
    /// The hints whose kind the filter does not let through.
    HiddenHints(AllowedHintKinds),
    /// The annotations whose kind the second filter lets through and the first
    /// did not.
    NewlyAllowed(AllowedHintKinds, AllowedHintKinds),
    /// The annotations that the identities do not name.
    NotNamed(&'a Vec<InlayId>),
}

impl<'a> InlayFilter<'a> {
    /// Whether the choice holds `inlay`.
    pub open spec fn selects(self, inlay: Inlay) -> bool {
        match self {
            InlayFilter::Hints => inlay.id.is_hint(),
            InlayFilter::HintsIn(excerpts) => inlay.id.is_hint() && excerpts@.contains(
                inlay.position.excerpt_id,
            ),
            InlayFilter::Outside(excerpts) => !excerpts@.contains(inlay.position.excerpt_id),
            InlayFilter::Allowed(kinds) => kinds.allows(inlay.hint.kind),
            InlayFilter::HiddenHints(kinds) => inlay.id.is_hint() && !kinds.allows(
                inlay.hint.kind,
            ),
            InlayFilter::NewlyAllowed(old, new) => new.allows(inlay.hint.kind) && !old.allows(
                inlay.hint.kind,
            ),
            InlayFilter::NotNamed(ids) => !ids@.contains(inlay.id),
        }
    }

    /// The choice as a predicate.
    pub open spec fn pred(self) -> spec_fn(Inlay) -> bool {
        |inlay: Inlay| self.selects(inlay)
    }

    /// Whether the choice holds `inlay`.
    pub fn test(&self, inlay: &Inlay) -> (r: bool)
        ensures
            r == self.selects(*inlay),
    {
        match self {
            InlayFilter::Hints => inlay.id.is_hint(),
            InlayFilter::HintsIn(excerpts) => inlay.id.is_hint() && names_excerpt(
                excerpts,
                inlay.position.excerpt_id,
            ),
            InlayFilter::Outside(excerpts) => !names_excerpt(excerpts, inlay.position.excerpt_id),
            InlayFilter::Allowed(kinds) => kinds.contains(inlay.hint.kind),
            InlayFilter::HiddenHints(kinds) => inlay.id.is_hint() && !kinds.contains(
                inlay.hint.kind,
            ),
            InlayFilter::NewlyAllowed(old, new) => new.contains(inlay.hint.kind) && !old.contains(
                inlay.hint.kind,
            ),
            InlayFilter::NotNamed(ids) => !names_inlay(ids, inlay.id),
        }
    }
}

/// The identity of an annotation.
pub open spec fn inlay_id() -> spec_fn(Inlay) -> InlayId {
    |inlay: Inlay| inlay.id
}

/// The identities of `inlays`, in their order.
pub open spec fn ids_of(inlays: Seq<Inlay>) -> Seq<InlayId> {
    inlays.map_values(inlay_id())
}

/// What is displayed once a splice is applied to `inlays`: those that
/// `to_remove` names leave, then `to_insert` follows the rest.
pub open spec fn spliced(inlays: Seq<Inlay>, to_remove: Seq<InlayId>, to_insert: Seq<Inlay>) -> Seq<
    Inlay,
> {
    inlays.filter(|inlay: Inlay| !to_remove.contains(inlay.id)) + to_insert
}

/// Whether `ids` names `id`.
pub fn names_inlay(ids: &Vec<InlayId>, id: InlayId) -> (r: bool)
    ensures
        r == ids@.contains(id),
{
    let mut i: usize = 0;
    while i < ids.len()
        invariant
            i <= ids.len(),
            forall|j: int| 0 <= j < i ==> ids@[j] != id,
        decreases ids.len() - i,
    {
        if ids[i] == id {
            return true;
        }
        i = i + 1;
    }
    false
}

/// The annotations of `inlays` that `filter` holds, in their order.
pub fn retain_inlays(inlays: Vec<Inlay>, filter: InlayFilter) -> (r: Vec<Inlay>)
    ensures
        r@ == inlays@.filter(filter.pred()),
{
    let ghost all = inlays@;
    let mut out: Vec<Inlay> = Vec::new();
    for inlay in it: inlays
        invariant
            it.seq() == all,
            out@ == all.take(it.index() as int).filter(filter.pred()),
    {
        proof {
            all.take(it.index() as int).lemma_filter_push(inlay, filter.pred());
            assert(all.take(it.index() as int + 1) == all.take(it.index() as int).push(inlay));
        }
        if filter.test(&inlay) {
            out.push(inlay);
        }
    }
    assert(all.take(all.len() as int) == all);
    out
}

/// Copies of the annotations of `inlays` that `filter` holds, in their order.
pub fn copy_inlays(inlays: &Vec<Inlay>, filter: InlayFilter) -> (r: Vec<Inlay>)
    ensures
        r@ == inlays@.filter(filter.pred()),
{
    let mut out: Vec<Inlay> = Vec::new();
    let mut i: usize = 0;
    while i < inlays.len()
        invariant
            i <= inlays.len(),
            out@ == inlays@.take(i as int).filter(filter.pred()),
        decreases inlays.len() - i,
    {
        proof {
            inlays@.take(i as int).lemma_filter_push(inlays@[i as int], filter.pred());
            assert(inlays@.take(i as int + 1) == inlays@.take(i as int).push(inlays@[i as int]));
        }
        if filter.test(&inlays[i]) {
            out.push(inlays[i].clone());
        }
        i = i + 1;
    }
    assert(inlays@.take(inlays.len() as int) == inlays@);
    out
}

/// The identities of the annotations of `inlays` that `filter` holds, in their
/// order.
pub fn inlay_ids(inlays: &Vec<Inlay>, filter: InlayFilter) -> (r: Vec<InlayId>)
    ensures
        r@ == ids_of(inlays@.filter(filter.pred())),
{
    let mut ids: Vec<InlayId> = Vec::new();
    let mut i: usize = 0;
    while i < inlays.len()
        invariant
            i <= inlays.len(),
            ids@ == ids_of(inlays@.take(i as int).filter(filter.pred())),
        decreases inlays.len() - i,
    {
        proof {
            let done = inlays@.take(i as int);
            done.lemma_filter_push(inlays@[i as int], filter.pred());
            done.filter(filter.pred()).lemma_push_map_commute(inlay_id(), inlays@[i as int]);
            assert(inlays@.take(i as int + 1) == done.push(inlays@[i as int]));
        }
        if filter.test(&inlays[i]) {
            ids.push(inlays[i].id);
        }
        i = i + 1;
    }
    assert(inlays@.take(inlays.len() as int) == inlays@);
    ids
}

/// The identities of `inlays`, in their order.
pub fn all_ids(inlays: &Vec<Inlay>) -> (r: Vec<InlayId>)
    ensures
        r@ == ids_of(inlays@),
{
    let mut ids: Vec<InlayId> = Vec::new();
    let mut i: usize = 0;
    while i < inlays.len()
        invariant
            i <= inlays.len(),
            ids@ == ids_of(inlays@.take(i as int)),
        decreases inlays.len() - i,
    {
        proof {
            inlays@.take(i as int).lemma_push_map_commute(inlay_id(), inlays@[i as int]);
            assert(inlays@.take(i as int + 1) == inlays@.take(i as int).push(inlays@[i as int]));
        }
        ids.push(inlays[i].id);
        i = i + 1;
    }
    assert(inlays@.take(inlays.len() as int) == inlays@);
    ids
}

/// Copies of `inlays`, in their order.
pub fn clone_inlays(inlays: &Vec<Inlay>) -> (r: Vec<Inlay>)
    ensures
        r@ == inlays@,
{
    let mut out: Vec<Inlay> = Vec::new();
    let mut i: usize = 0;
    while i < inlays.len()
        invariant
            i <= inlays.len(),
            out@ == inlays@.take(i as int),
        decreases inlays.len() - i,
    {
        out.push(inlays[i].clone());
        assert(inlays@.take(i as int + 1) == inlays@.take(i as int).push(inlays@[i as int]));
        i = i + 1;
    }
    assert(inlays@.take(inlays.len() as int) == inlays@);
    out
}

/// Applies a splice to the displayed annotations.
pub fn apply_splice(inlays: Vec<Inlay>, to_remove: &Vec<InlayId>, to_insert: Vec<Inlay>) -> (r: Vec<
    Inlay,
>)
    ensures
        r@ == spliced(inlays@, to_remove@, to_insert@),
{
    let mut out = retain_inlays(inlays, InlayFilter::NotNamed(to_remove));
    assert(InlayFilter::NotNamed(to_remove).pred() =~= (|inlay: Inlay|
        !to_remove@.contains(inlay.id)));
    let mut to_insert = to_insert;
    out.append(&mut to_insert);
    out
}

} // verus!
