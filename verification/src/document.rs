//! The fetch state of every document that hints were asked for.

use vstd::prelude::*;

use crate::clock::VersionClock;
use crate::fetch::{outside_excerpts, InflightTasks, InlayTask};
use crate::hint::{BufferId, ExcerptId, RowRange};

verus! {

/// The fetch state of one document.
#[derive(Debug)]
pub struct DocumentFetchState {
    buffer_id: BufferId,
    inflight: InflightTasks,
    snapshot_version: Option<VersionClock>,
}

/// What a `DocumentFetchState` holds: the fetches in flight by row range, and
/// the version of the document at which its cached hints were computed.
pub struct DocumentState {
    pub inflight: Map<RowRange, InlayTask>,
    pub snapshot_version: Option<VersionClock>,
}

impl View for DocumentFetchState {
    type V = DocumentState;

    closed spec fn view(&self) -> DocumentState {
        DocumentState { inflight: self.inflight@, snapshot_version: self.snapshot_version }
    }
}

/// The state of a document that nothing was fetched for yet.
pub open spec fn fresh_document() -> DocumentState {
    DocumentState { inflight: Map::empty(), snapshot_version: None }
}

/// The state of the document `buffer_id` in `documents`.
pub open spec fn document_of(
    documents: Map<BufferId, DocumentState>,
    buffer_id: BufferId,
) -> DocumentState {
    if documents.contains_key(buffer_id) {
        documents[buffer_id]
    } else {
        fresh_document()
    }
}

/// The task that is registered for `buffer_id` under `key`.
pub open spec fn task_of(
    documents: Map<BufferId, DocumentState>,
    buffer_id: BufferId,
    key: RowRange,
) -> Option<InlayTask> {
    if document_of(documents, buffer_id).inflight.contains_key(key) {
        Some(document_of(documents, buffer_id).inflight[key])
    } else {
        None
    }
}

/// `documents` once `task` is registered for `buffer_id`: it takes the place of
/// the task that was registered under its row range.
pub open spec fn with_task(
    documents: Map<BufferId, DocumentState>,
    buffer_id: BufferId,
    task: InlayTask,
) -> Map<BufferId, DocumentState> {
    let document = document_of(documents, buffer_id);
    documents.insert(
        buffer_id,
        DocumentState {
            inflight: document.inflight.insert(task.row_range, task),
            snapshot_version: document.snapshot_version,
        },
    )
}

/// `documents` once no task is registered for `buffer_id` under `key`.
pub open spec fn without_task(
    documents: Map<BufferId, DocumentState>,
    buffer_id: BufferId,
    key: RowRange,
) -> Map<BufferId, DocumentState> {
    if documents.contains_key(buffer_id) {
        documents.insert(
            buffer_id,
            DocumentState {
                inflight: documents[buffer_id].inflight.remove(key),
                snapshot_version: documents[buffer_id].snapshot_version,
            },
        )
    } else {
        documents
    }
}

/// `documents` once the hints of `buffer_id` are known to stand for `version`.
pub open spec fn with_version(
    documents: Map<BufferId, DocumentState>,
    buffer_id: BufferId,
    version: VersionClock,
) -> Map<BufferId, DocumentState> {
    documents.insert(
        buffer_id,
        DocumentState {
            inflight: document_of(documents, buffer_id).inflight,
            snapshot_version: Some(version),
        },
    )
}

/// A document without the tasks that belong to one of `excerpts`.
pub open spec fn document_outside(excerpts: Seq<ExcerptId>) -> spec_fn(DocumentState) -> DocumentState {
    |document: DocumentState|
        DocumentState {
            inflight: outside_excerpts(document.inflight, excerpts),
            snapshot_version: document.snapshot_version,
        }
}

/// `documents` without the tasks that belong to one of `excerpts`.
pub open spec fn without_excerpts(
    documents: Map<BufferId, DocumentState>,
    excerpts: Seq<ExcerptId>,
) -> Map<BufferId, DocumentState> {
    documents.map_values(document_outside(excerpts))
}

spec fn has_document(documents: Seq<DocumentFetchState>, buffer_id: BufferId) -> bool {
    exists|i: int| 0 <= i < documents.len() && documents[i].buffer_id == buffer_id
}

spec fn document_index(documents: Seq<DocumentFetchState>, buffer_id: BufferId) -> int {
    choose|i: int| 0 <= i < documents.len() && documents[i].buffer_id == buffer_id
}

spec fn distinct_buffers(documents: Seq<DocumentFetchState>) -> bool {
    forall|i: int, j: int|
        0 <= i < j < documents.len() ==> documents[i].buffer_id != documents[j].buffer_id
}

spec fn all_wf(documents: Seq<DocumentFetchState>) -> bool {
    forall|i: int| 0 <= i < documents.len() ==> (#[trigger] documents[i]).inflight.wf()
}

spec fn document_map(documents: Seq<DocumentFetchState>) -> Map<BufferId, DocumentState> {
    Map::new(
        |buffer_id: BufferId| has_document(documents, buffer_id),
        |buffer_id: BufferId| documents[document_index(documents, buffer_id)]@,
    )
}

proof fn lemma_document_at(documents: Seq<DocumentFetchState>, i: int)
    requires
        distinct_buffers(documents),
        0 <= i < documents.len(),
    ensures
        has_document(documents, documents[i].buffer_id),
        document_index(documents, documents[i].buffer_id) == i,
        document_map(documents).contains_key(documents[i].buffer_id),
        document_map(documents)[documents[i].buffer_id] == documents[i]@,
{
    let j = document_index(documents, documents[i].buffer_id);
    assert(0 <= j < documents.len() && documents[j].buffer_id == documents[i].buffer_id);
    if j < i {
    } else if i < j {
    }
}

proof fn lemma_document_map_push(documents: Seq<DocumentFetchState>, document: DocumentFetchState)
    requires
        distinct_buffers(documents),
        !has_document(documents, document.buffer_id),
    ensures
        distinct_buffers(documents.push(document)),
        document_map(documents.push(document)) == document_map(documents).insert(
            document.buffer_id,
            document@,
        ),
{
    let after = documents.push(document);
    assert(distinct_buffers(after)) by {
        assert forall|i: int, j: int| 0 <= i < j < after.len() implies after[i].buffer_id
            != after[j].buffer_id by {
            if j == documents.len() {
                assert(documents[i].buffer_id != document.buffer_id);
            }
        }
    }
    let expected = document_map(documents).insert(document.buffer_id, document@);
    assert forall|b: BufferId| #[trigger]
        document_map(after).contains_key(b) == expected.contains_key(b) by {
        if has_document(documents, b) {
            let i = document_index(documents, b);
            assert(after[i].buffer_id == b);
        }
        if b == document.buffer_id {
            assert(after[documents.len() as int].buffer_id == b);
        }
        if has_document(after, b) {
            let i = document_index(after, b);
            if i < documents.len() {
                assert(documents[i].buffer_id == b);
            }
        }
    }
    assert forall|b: BufferId| #[trigger] document_map(after).contains_key(b) implies document_map(
        after,
    )[b] == expected[b] by {
        let i = document_index(after, b);
        lemma_document_at(after, i);
        if i < documents.len() {
            lemma_document_at(documents, i);
        }
    }
    assert(document_map(after) =~= expected);
}

proof fn lemma_document_map_update(
    documents: Seq<DocumentFetchState>,
    i: int,
    document: DocumentFetchState,
)
    requires
        distinct_buffers(documents),
        0 <= i < documents.len(),
        document.buffer_id == documents[i].buffer_id,
    ensures
        distinct_buffers(documents.update(i, document)),
        document_map(documents.update(i, document)) == document_map(documents).insert(
            document.buffer_id,
            document@,
        ),
{
    let after = documents.update(i, document);
    assert(distinct_buffers(after)) by {
        assert forall|a: int, b: int| 0 <= a < b < after.len() implies after[a].buffer_id
            != after[b].buffer_id by {
            assert(after[a].buffer_id == documents[a].buffer_id);
            assert(after[b].buffer_id == documents[b].buffer_id);
        }
    }
    let expected = document_map(documents).insert(document.buffer_id, document@);
    assert forall|b: BufferId| #[trigger]
        document_map(after).contains_key(b) == expected.contains_key(b) by {
        if has_document(documents, b) {
            let j = document_index(documents, b);
            assert(after[j].buffer_id == b);
        }
        if b == document.buffer_id {
            assert(after[i].buffer_id == b);
        }
        if has_document(after, b) {
            let j = document_index(after, b);
            assert(documents[j].buffer_id == b);
        }
    }
    assert forall|b: BufferId| #[trigger] document_map(after).contains_key(b) implies document_map(
        after,
    )[b] == expected[b] by {
        let j = document_index(after, b);
        lemma_document_at(after, j);
        lemma_document_at(documents, j);
    }
    assert(document_map(after) =~= expected);
}

/// The fetch state of all documents, at most one state per document.
#[derive(Debug)]
pub struct FetchRegistry {
    documents: Vec<DocumentFetchState>,
}

impl View for FetchRegistry {
    type V = Map<BufferId, DocumentState>;

    closed spec fn view(&self) -> Map<BufferId, DocumentState> {
        document_map(self.documents@)
    }
}

impl FetchRegistry {
    /// No document has two states, and no document two tasks under one row
    /// range.
    pub closed spec fn wf(&self) -> bool {
        distinct_buffers(self.documents@) && all_wf(self.documents@)
    }

    pub fn new() -> (r: Self)
        ensures
            r.wf(),
            r@ == Map::<BufferId, DocumentState>::empty(),
    {
        let r = FetchRegistry { documents: Vec::new() };
        assert(r@ =~= Map::<BufferId, DocumentState>::empty());
        r
    }

    /// Forgets every document: its tasks and its version.
    pub fn clear(&mut self)
        ensures
            final(self).wf(),
            final(self)@ == Map::<BufferId, DocumentState>::empty(),
    {
        self.documents.clear();
        assert(self@ =~= Map::<BufferId, DocumentState>::empty());
    }

    fn position(&self, buffer_id: BufferId) -> (r: Option<usize>)
        requires
            self.wf(),
        ensures
            match r {
                Some(i) => i < self.documents@.len() && self.documents@[i as int].buffer_id
                    == buffer_id && self@.contains_key(buffer_id) && self@[buffer_id]
                    == self.documents@[i as int]@,
                None => !self@.contains_key(buffer_id),
            },
    {
        let mut i: usize = 0;
        while i < self.documents.len()
            invariant
                i <= self.documents.len(),
                self.wf(),
                forall|j: int| 0 <= j < i ==> self.documents@[j].buffer_id != buffer_id,
            decreases self.documents.len() - i,
        {
            if self.documents[i].buffer_id == buffer_id {
                proof {
                    lemma_document_at(self.documents@, i as int);
                }
                return Some(i);
            }
            i = i + 1;
        }
        None
    }

    /// The task registered for `buffer_id` under `key`, if there is one.
    pub fn task(&self, buffer_id: BufferId, key: RowRange) -> (r: Option<&InlayTask>)
        requires
            self.wf(),
        ensures
            match r {
                Some(task) => task_of(self@, buffer_id, key) == Some(*task),
                None => task_of(self@, buffer_id, key).is_none(),
            },
    {
        match self.position(buffer_id) {
            Some(i) => self.documents[i].inflight.get(key),
            None => None,
        }
    }

    /// The version at which the cached hints of `buffer_id` were computed.
    pub fn snapshot_version(&self, buffer_id: BufferId) -> (r: Option<&VersionClock>)
        requires
            self.wf(),
        ensures
            match r {
                Some(version) => document_of(self@, buffer_id).snapshot_version == Some(*version),
                None => document_of(self@, buffer_id).snapshot_version.is_none(),
            },
    {
        match self.position(buffer_id) {
            Some(i) => match &self.documents[i].snapshot_version {
                Some(version) => Some(version),
                None => None,
            },
            None => None,
        }
    }

    /// Registers `task` for `buffer_id`, in place of the task that was
    /// registered under its row range. The task superseded is handed back.
    pub fn register(&mut self, buffer_id: BufferId, task: InlayTask) -> (r: Option<InlayTask>)
        requires
            old(self).wf(),
        ensures
            final(self).wf(),
            final(self)@ == with_task(old(self)@, buffer_id, task),
            r == task_of(old(self)@, buffer_id, task.row_range),
    {
        match self.position(buffer_id) {
            Some(i) => {
                let superseded = self.documents[i].inflight.insert(task);
                proof {
                    lemma_document_map_update(
                        old(self).documents@,
                        i as int,
                        self.documents@[i as int],
                    );
                    assert(self.documents@ =~= old(self).documents@.update(
                        i as int,
                        self.documents@[i as int],
                    ));
                }
                superseded
            },
            None => {
                let mut inflight = InflightTasks::new();
                inflight.insert(task);
                let document = DocumentFetchState { buffer_id, inflight, snapshot_version: None };
                proof {
                    lemma_document_map_push(self.documents@, document);
                }
                self.documents.push(document);
                None
            },
        }
    }

    /// Takes out the task registered for `buffer_id` under `key`, if there is
    /// one.
    pub fn deregister(&mut self, buffer_id: BufferId, key: RowRange) -> (r: Option<InlayTask>)
        requires
            old(self).wf(),
        ensures
            final(self).wf(),
            final(self)@ == without_task(old(self)@, buffer_id, key),
            r == task_of(old(self)@, buffer_id, key),
    {
        match self.position(buffer_id) {
            Some(i) => {
                let task = self.documents[i].inflight.remove(key);
                proof {
                    lemma_document_map_update(
                        old(self).documents@,
                        i as int,
                        self.documents@[i as int],
                    );
                    assert(self.documents@ =~= old(self).documents@.update(
                        i as int,
                        self.documents@[i as int],
                    ));
                }
                task
            },
            None => None,
        }
    }

    /// Records that the cached hints of `buffer_id` stand for `version`.
    pub fn set_snapshot_version(&mut self, buffer_id: BufferId, version: VersionClock)
        requires
            old(self).wf(),
        ensures
            final(self).wf(),
            final(self)@ == with_version(old(self)@, buffer_id, version),
    {
        match self.position(buffer_id) {
            Some(i) => {
                self.documents[i].snapshot_version = Some(version);
                proof {
                    lemma_document_map_update(
                        old(self).documents@,
                        i as int,
                        self.documents@[i as int],
                    );
                    assert(self.documents@ =~= old(self).documents@.update(
                        i as int,
                        self.documents@[i as int],
                    ));
                }
            },
            None => {
                let document = DocumentFetchState {
                    buffer_id,
                    inflight: InflightTasks::new(),
                    snapshot_version: Some(version),
                };
                proof {
                    lemma_document_map_push(self.documents@, document);
                }
                self.documents.push(document);
            },
        }
    }

    /// Drops, in every document, the tasks that belong to one of `excerpts`.
    pub fn remove_excerpts(&mut self, excerpts: &Vec<ExcerptId>)
        requires
            old(self).wf(),
        ensures
            final(self).wf(),
            final(self)@ == without_excerpts(old(self)@, excerpts@),
    {
        let mut i: usize = 0;
        while i < self.documents.len()
            invariant
                i <= self.documents.len(),
                self.wf(),
                self.documents@.len() == old(self).documents@.len(),
                forall|j: int|
                    0 <= j < self.documents@.len() ==> (#[trigger] self.documents@[j]).buffer_id
                        == old(self).documents@[j].buffer_id,
                forall|j: int|
                    0 <= j < i ==> (#[trigger] self.documents@[j])@ == document_outside(excerpts@)(
                        old(self).documents@[j]@,
                    ),
                forall|j: int|
                    i <= j < self.documents@.len() ==> #[trigger] self.documents@[j] == old(
                        self,
                    ).documents@[j],
            decreases self.documents.len() - i,
        {
            let ghost before = self.documents@;
            self.documents[i].inflight.retain_outside(excerpts);
            proof {
                assert(self.documents@ =~= before.update(i as int, self.documents@[i as int]));
                lemma_document_map_update(before, i as int, self.documents@[i as int]);
                assert forall|j: int| 0 <= j < self.documents@.len() implies (
                #[trigger] self.documents@[j]).inflight.wf() by {
                    if j != i {
                        assert(before[j].inflight.wf());
                    }
                }
            }
            i = i + 1;
        }
        proof {
            let expected = without_excerpts(old(self)@, excerpts@);
            assert forall|b: BufferId| #[trigger] self@.contains_key(b) == expected.contains_key(
                b,
            ) by {
                if has_document(self.documents@, b) {
                    let j = document_index(self.documents@, b);
                    assert(old(self).documents@[j].buffer_id == b);
                }
                if has_document(old(self).documents@, b) {
                    let j = document_index(old(self).documents@, b);
                    assert(self.documents@[j].buffer_id == b);
                }
            }
            assert forall|b: BufferId| #[trigger] self@.contains_key(b) implies self@[b]
                == expected[b] by {
                let j = document_index(self.documents@, b);
                lemma_document_at(self.documents@, j);
                lemma_document_at(old(self).documents@, j);
            }
            assert(self@ =~= expected);
        }
    }
}

} // verus!
