//! Version clocks: one counter per replica that edits a document.

use vstd::prelude::*;

verus! {

/// The version of a document: for each replica, how many of its edits the
/// document has seen. Every edit advances one counter.
#[derive(Debug)]
pub struct VersionClock {
    values: Vec<u32>,
}

impl View for VersionClock {
    type V = Seq<u32>;

    closed spec fn view(&self) -> Seq<u32> {
        self.values@
    }
}

/// Whether the version `a` holds an edit that the version `b` lacks: a replica
/// that `b` does not know, or a counter that is further on in `a`.
pub open spec fn changed_since(a: Seq<u32>, b: Seq<u32>) -> bool {
    a.len() > b.len() || exists|i: int| 0 <= i < a.len() && i < b.len() && a[i] > b[i]
}

impl VersionClock {
    /// The version of a document that nobody has edited.
    pub fn new() -> (r: Self)
        ensures
            r@ == Seq::<u32>::empty(),
    {
        VersionClock { values: Vec::new() }
    }

    /// The version with the given counters, one per replica.
    pub fn from_values(values: Vec<u32>) -> (r: Self)
        ensures
            r@ == values@,
    {
        VersionClock { values }
    }

    /// The counters, one per replica.
    pub fn values(&self) -> (r: &Vec<u32>)
        ensures
            r@ == self@,
    {
        &self.values
    }

    /// Whether this version holds an edit that `other` lacks.
    pub fn changed_since(&self, other: &VersionClock) -> (r: bool)
        ensures
            r == changed_since(self@, other@),
    {
        if self.values.len() > other.values.len() {
            return true;
        }
        let mut i: usize = 0;
        while i < self.values.len()
            invariant
                i <= self.values.len(),
                self.values.len() <= other.values.len(),
                forall|j: int| 0 <= j < i ==> self.values@[j] <= other.values@[j],
            decreases self.values.len() - i,
        {
            if self.values[i] > other.values[i] {
                return true;
            }
            i = i + 1;
        }
        false
    }
}

impl Clone for VersionClock {
    fn clone(&self) -> (r: Self)
        ensures
            r@ == self@,
    {
        let mut values: Vec<u32> = Vec::new();
        let mut i: usize = 0;
        while i < self.values.len()
            invariant
                i <= self.values.len(),
                values@ == self.values@.take(i as int),
            decreases self.values.len() - i,
        {
            values.push(self.values[i]);
            i = i + 1;
        }
        assert(self.values@.take(self.values.len() as int) == self.values@);
        VersionClock { values }
    }
}

/// No version has changed since itself.
pub proof fn lemma_unchanged_since_itself(a: Seq<u32>)
    ensures
        !changed_since(a, a),
{
}

} // verus!
