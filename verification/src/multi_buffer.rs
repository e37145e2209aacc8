//! What the coordinator reads of the view: the excerpts that compose it, and
//! the regions of them that are on screen or near it.

use vstd::prelude::*;

use crate::clock::VersionClock;
use crate::hint::{BufferId, ExcerptId, Point, PointRange};
use crate::inlay::Anchor;

verus! {

/// One region of a document that the view shows.
#[derive(Clone, Copy, Debug, PartialEq, Eq, Structural)]
pub struct Excerpt {
    pub id: ExcerptId,
    pub buffer_id: BufferId,
}

/// The excerpts of the view at one moment, in the order of the view.
#[derive(Debug)]
pub struct MultiBufferSnapshot {
    pub excerpts: Vec<Excerpt>,
}

impl View for MultiBufferSnapshot {
    type V = Seq<Excerpt>;

    open spec fn view(&self) -> Seq<Excerpt> {
        self.excerpts@
    }
}

/// The document of the first of `excerpts` that has the identity `id`.
pub open spec fn buffer_for_excerpt(excerpts: Seq<Excerpt>, id: ExcerptId) -> Option<BufferId>
    decreases excerpts.len(),
{
    if excerpts.len() == 0 {
        None
    } else if excerpts[0].id == id {
        Some(excerpts[0].buffer_id)
    } else {
        buffer_for_excerpt(excerpts.drop_first(), id)
    }
}

/// Where `position` of the document behind the excerpt `id` lies in the view:
/// nowhere, once the view holds no such excerpt.
pub open spec fn anchor_in_excerpt(excerpts: Seq<Excerpt>, id: ExcerptId, position: Point) -> Option<
    Anchor,
> {
    match buffer_for_excerpt(excerpts, id) {
        Some(buffer_id) => Some(Anchor { excerpt_id: id, buffer_id, position }),
        None => None,
    }
}

impl MultiBufferSnapshot {
    /// The document that the excerpt `id` shows, if the view holds the excerpt.
    pub fn buffer_for_excerpt(&self, id: ExcerptId) -> (r: Option<BufferId>)
        ensures
            r == buffer_for_excerpt(self@, id),
    {
        let mut i: usize = 0;
        assert(self@.skip(0) == self@);
        while i < self.excerpts.len()
            invariant
                i <= self.excerpts.len(),
                buffer_for_excerpt(self@, id) == buffer_for_excerpt(self@.skip(i as int), id),
            decreases self.excerpts.len() - i,
        {
            if self.excerpts[i].id == id {
                return Some(self.excerpts[i].buffer_id);
            }
            assert(self@.skip(i as int).drop_first() == self@.skip(i as int + 1));
            i = i + 1;
        }
        None
    }

    /// Where `position` of the document behind the excerpt `id` lies in the view.
    pub fn anchor_in_excerpt(&self, id: ExcerptId, position: Point) -> (r: Option<Anchor>)
        ensures
            r == anchor_in_excerpt(self@, id, position),
    {
        match self.buffer_for_excerpt(id) {
            Some(buffer_id) => Some(Anchor { excerpt_id: id, buffer_id, position }),
            None => None,
        }
    }
}

/// A region for which hints are wanted: a span of one document, seen through
/// one excerpt, at the version the document had when the region was taken.
#[derive(Debug)]
pub struct VisibleExcerpt {
    pub excerpt_id: ExcerptId,
    pub buffer_id: BufferId,
    pub buffer_version: VersionClock,
    pub range: PointRange,
    /// Whether the region is a margin beside the screen, not the screen itself.
    pub off_screen: bool,
}

} // verus!
