//! The fetches in flight: one per document and row range, and per document the
//! version at which its hints were last reconciled.

use vstd::prelude::*;

use crate::clock::VersionClock;
use crate::hint::{BufferId, ExcerptId, PointRange, RowRange};
use crate::reason::InvalidationStrategy;

verus! {

/// Identity of one issued fetch. A later fetch has a greater number.
#[derive(Clone, Copy, Debug, PartialEq, Eq, Hash, Structural)]
pub struct TaskId(pub u64);

/// One fetch in flight, with what its completion needs to know.
#[derive(Debug)]
pub struct InlayTask {
    pub id: TaskId,
    /// The key of the fetch within its document.
    pub row_range: RowRange,
    pub excerpt_id: ExcerptId,
    /// The version of the document when the fetch was issued.
    pub buffer_version: VersionClock,
    /// The span that the provider is asked about.
    pub range: PointRange,
    pub strategy: InvalidationStrategy,
}

/// What a caller needs to run one fetch against the provider.
#[derive(Clone, Copy, Debug, PartialEq, Eq)]
pub struct FetchRequest {
    pub task_id: TaskId,
    pub buffer_id: BufferId,
    pub excerpt_id: ExcerptId,
    pub row_range: RowRange,
    pub range: PointRange,
    /// Whether the provider should drop what it knows of the document itself.
    pub should_invalidate: bool,
    /// The milliseconds to wait before the fetch goes out, if it is debounced.
    pub debounce_ms: Option<u64>,
}

/// A fetch that the provider could not answer.
#[derive(Debug)]
pub struct ProviderError {
    pub message: String,
}

/// Whether `excerpts` names `id`.
pub fn names_excerpt(excerpts: &Vec<ExcerptId>, id: ExcerptId) -> (r: bool)
    ensures
        r == excerpts@.contains(id),
{
    let mut i: usize = 0;
    while i < excerpts.len()
        invariant
            i <= excerpts.len(),
            forall|j: int| 0 <= j < i ==> excerpts@[j] != id,
        decreases excerpts.len() - i,
    {
        if excerpts[i] == id {
            return true;
        }
        i = i + 1;
    }
    false
}

spec fn has_task(tasks: Seq<InlayTask>, key: RowRange) -> bool {
    exists|i: int| 0 <= i < tasks.len() && tasks[i].row_range == key
}

spec fn task_index(tasks: Seq<InlayTask>, key: RowRange) -> int {
    choose|i: int| 0 <= i < tasks.len() && tasks[i].row_range == key
}

spec fn distinct_rows(tasks: Seq<InlayTask>) -> bool {
    forall|i: int, j: int| 0 <= i < j < tasks.len() ==> tasks[i].row_range != tasks[j].row_range
}

spec fn task_map(tasks: Seq<InlayTask>) -> Map<RowRange, InlayTask> {
    Map::new(|key: RowRange| has_task(tasks, key), |key: RowRange| tasks[task_index(tasks, key)])
}

proof fn lemma_task_at(tasks: Seq<InlayTask>, i: int)
    requires
        distinct_rows(tasks),
        0 <= i < tasks.len(),
    ensures
        has_task(tasks, tasks[i].row_range),
        task_index(tasks, tasks[i].row_range) == i,
        task_map(tasks).contains_key(tasks[i].row_range),
        task_map(tasks)[tasks[i].row_range] == tasks[i],
{
    let j = task_index(tasks, tasks[i].row_range);
    assert(0 <= j < tasks.len() && tasks[j].row_range == tasks[i].row_range);
    if j < i {
    } else if i < j {
    }
}

proof fn lemma_task_map_push(tasks: Seq<InlayTask>, task: InlayTask)
    requires
        distinct_rows(tasks),
        !has_task(tasks, task.row_range),
    ensures
        distinct_rows(tasks.push(task)),
        task_map(tasks.push(task)) == task_map(tasks).insert(task.row_range, task),
{
    let after = tasks.push(task);
    assert(distinct_rows(after)) by {
        assert forall|i: int, j: int| 0 <= i < j < after.len() implies after[i].row_range
            != after[j].row_range by {
            if j == tasks.len() {
                assert(tasks[i].row_range != task.row_range);
            }
        }
    }
    assert forall|key: RowRange| #[trigger]
        task_map(after).contains_key(key) == task_map(tasks).insert(
            task.row_range,
            task,
        ).contains_key(key) by {
        if has_task(tasks, key) {
            let i = task_index(tasks, key);
            assert(after[i].row_range == key);
        }
        if key == task.row_range {
            assert(after[tasks.len() as int].row_range == key);
        }
        if has_task(after, key) {
            let i = task_index(after, key);
            if i < tasks.len() {
                assert(tasks[i].row_range == key);
            }
        }
    }
    assert forall|key: RowRange| #[trigger] task_map(after).contains_key(key) implies task_map(
        after,
    )[key] == task_map(tasks).insert(task.row_range, task)[key] by {
        let i = task_index(after, key);
        lemma_task_at(after, i);
        if i < tasks.len() {
            lemma_task_at(tasks, i);
        }
    }
    assert(task_map(after) =~= task_map(tasks).insert(task.row_range, task));
}

proof fn lemma_task_map_remove(tasks: Seq<InlayTask>, i: int)
    requires
        distinct_rows(tasks),
        0 <= i < tasks.len(),
    ensures
        distinct_rows(tasks.remove(i)),
        !has_task(tasks.remove(i), tasks[i].row_range),
        task_map(tasks.remove(i)) == task_map(tasks).remove(tasks[i].row_range),
{
    let after = tasks.remove(i);
    let gone = tasks[i].row_range;
    assert forall|j: int| 0 <= j < after.len() implies after[j] == tasks[if j < i {
        j
    } else {
        j + 1
    }] by {}
    assert(distinct_rows(after));
    assert(!has_task(after, gone)) by {
        if has_task(after, gone) {
            let j = task_index(after, gone);
            let k = if j < i {
                j
            } else {
                j + 1
            };
            assert(tasks[k].row_range == gone);
        }
    }
    assert forall|key: RowRange| #[trigger]
        task_map(after).contains_key(key) == task_map(tasks).remove(gone).contains_key(key) by {
        if has_task(after, key) {
            let j = task_index(after, key);
            let k = if j < i {
                j
            } else {
                j + 1
            };
            assert(tasks[k].row_range == key);
        }
        if has_task(tasks, key) && key != gone {
            let k = task_index(tasks, key);
            let j = if k < i {
                k
            } else {
                k - 1
            };
            assert(after[j].row_range == key);
        }
    }
    assert forall|key: RowRange| #[trigger] task_map(after).contains_key(key) implies task_map(
        after,
    )[key] == task_map(tasks).remove(gone)[key] by {
        let j = task_index(after, key);
        lemma_task_at(after, j);
        let k = if j < i {
            j
        } else {
            j + 1
        };
        lemma_task_at(tasks, k);
    }
    assert(task_map(after) =~= task_map(tasks).remove(gone));
}

/// The tasks of `tasks` that belong to none of `excerpts`.
pub open spec fn outside_excerpts(tasks: Map<RowRange, InlayTask>, excerpts: Seq<ExcerptId>) -> Map<
    RowRange,
    InlayTask,
> {
    Map::new(
        |key: RowRange| tasks.contains_key(key) && !excerpts.contains(tasks[key].excerpt_id),
        |key: RowRange| tasks[key],
    )
}

/// The fetches in flight for one document, at most one per row range.
#[derive(Debug)]
pub struct InflightTasks {
    tasks: Vec<InlayTask>,
}

impl View for InflightTasks {
    type V = Map<RowRange, InlayTask>;

    closed spec fn view(&self) -> Map<RowRange, InlayTask> {
        task_map(self.tasks@)
    }
}

impl InflightTasks {
    /// No two tasks are registered under one row range.
    pub closed spec fn wf(&self) -> bool {
        distinct_rows(self.tasks@)
    }

    /// Every task is registered under its own row range.
    pub proof fn lemma_keyed_by_row_range(&self)
        requires
            self.wf(),
        ensures
            forall|key: RowRange| #[trigger]
                self@.contains_key(key) ==> self@[key].row_range == key,
    {
        assert forall|key: RowRange| #[trigger] self@.contains_key(key) implies self@[key].row_range
            == key by {
            lemma_task_at(self.tasks@, task_index(self.tasks@, key));
        }
    }

    pub fn new() -> (r: Self)
        ensures
            r.wf(),
            r@ == Map::<RowRange, InlayTask>::empty(),
    {
        let r = InflightTasks { tasks: Vec::new() };
        assert(r@ =~= Map::<RowRange, InlayTask>::empty());
        r
    }

    fn position(&self, key: RowRange) -> (r: Option<usize>)
        requires
            self.wf(),
        ensures
            match r {
                Some(i) => i < self.tasks@.len() && self.tasks@[i as int].row_range == key
                    && self@.contains_key(key) && self@[key] == self.tasks@[i as int],
                None => !self@.contains_key(key),
            },
    {
        let mut i: usize = 0;
        while i < self.tasks.len()
            invariant
                i <= self.tasks.len(),
                self.wf(),
                forall|j: int| 0 <= j < i ==> self.tasks@[j].row_range != key,
            decreases self.tasks.len() - i,
        {
            if self.tasks[i].row_range == key {
                proof {
                    lemma_task_at(self.tasks@, i as int);
                }
                return Some(i);
            }
            i = i + 1;
        }
        None
    }

    /// The task registered under `key`, if there is one.
    pub fn get(&self, key: RowRange) -> (r: Option<&InlayTask>)
        requires
            self.wf(),
        ensures
            match r {
                Some(task) => self@.contains_key(key) && *task == self@[key],
                None => !self@.contains_key(key),
            },
    {
        match self.position(key) {
            Some(i) => Some(&self.tasks[i]),
            None => None,
        }
    }

    /// Takes out the task registered under `key`, if there is one.
    pub fn remove(&mut self, key: RowRange) -> (r: Option<InlayTask>)
        requires
            old(self).wf(),
        ensures
            final(self).wf(),
            final(self)@ == old(self)@.remove(key),
            r == (if old(self)@.contains_key(key) {
                Some(old(self)@[key])
            } else {
                None
            }),
    {
        match self.position(key) {
            Some(i) => {
                proof {
                    lemma_task_map_remove(self.tasks@, i as int);
                }
                Some(self.tasks.remove(i))
            },
            None => {
                assert(self@.remove(key) =~= self@);
                None
            },
        }
    }

    /// Registers `task` under its row range. A task that was registered there
    /// is superseded: it leaves the registry and is handed back.
    pub fn insert(&mut self, task: InlayTask) -> (r: Option<InlayTask>)
        requires
            old(self).wf(),
        ensures
            final(self).wf(),
            final(self)@ == old(self)@.insert(task.row_range, task),
            r == (if old(self)@.contains_key(task.row_range) {
                Some(old(self)@[task.row_range])
            } else {
                None
            }),
    {
        let superseded = self.remove(task.row_range);
        proof {
            assert(!self@.contains_key(task.row_range));
            lemma_task_map_push(self.tasks@, task);
            assert(old(self)@.remove(task.row_range).insert(task.row_range, task) =~= old(
                self,
            )@.insert(task.row_range, task));
        }
        self.tasks.push(task);
        superseded
    }

    /// Drops the tasks that belong to one of `excerpts`.
    pub fn retain_outside(&mut self, excerpts: &Vec<ExcerptId>)
        requires
            old(self).wf(),
        ensures
            final(self).wf(),
            final(self)@ == outside_excerpts(old(self)@, excerpts@),
    {
        let mut i: usize = 0;
        while i < self.tasks.len()
            invariant
                i <= self.tasks.len(),
                self.wf(),
                outside_excerpts(self@, excerpts@) == outside_excerpts(old(self)@, excerpts@),
                forall|j: int| 0 <= j < i ==> !excerpts@.contains(self.tasks@[j].excerpt_id),
            decreases self.tasks.len() - i,
        {
            if names_excerpt(excerpts, self.tasks[i].excerpt_id) {
                proof {
                    lemma_task_at(self.tasks@, i as int);
                    lemma_task_map_remove(self.tasks@, i as int);
                    assert(outside_excerpts(
                        self@.remove(self.tasks@[i as int].row_range),
                        excerpts@,
                    ) =~= outside_excerpts(self@, excerpts@));
                }
                self.tasks.remove(i);
            } else {
                i = i + 1;
            }
        }
        proof {
            assert forall|key: RowRange| #[trigger] self@.contains_key(key) implies !excerpts@.contains(
                self@[key].excerpt_id,
            ) by {
                lemma_task_at(self.tasks@, task_index(self.tasks@, key));
            }
            assert(outside_excerpts(self@, excerpts@) =~= self@);
        }
    }
}

} // verus!
