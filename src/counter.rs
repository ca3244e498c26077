use vstd::prelude::*;
use crate::cover::{covers, distinct_below, lemma_distinct_len, lemma_room_for_missing};
use crate::error::WorkerError;

verus! {

/// The counter every worker bumps exactly once. Besides its value it keeps
/// the order in which workers incremented it: the value is the length of
/// that history, so no increment can be lost or counted twice.
pub struct SharedCounter {
    order: Vec<usize>,
    seen: Vec<bool>,
}

impl View for SharedCounter {
    type V = Seq<usize>;

    /// The workers that incremented, in the order of their increments.
    closed spec fn view(&self) -> Seq<usize> {
        self.order@
    }
}

impl SharedCounter {
    /// The number of workers the counter serves.
    pub closed spec fn workers(&self) -> nat {
        self.seen@.len()
    }

    /// The counter's value.
    pub open spec fn value_spec(&self) -> nat {
        self@.len()
    }

    /// Every worker has incremented.
    pub open spec fn complete(&self) -> bool {
        covers(self@, self.workers())
    }

    pub closed spec fn wf(&self) -> bool {
        &&& self.seen@.len() <= usize::MAX
        &&& distinct_below(self.order@, self.seen@.len())
        &&& forall|i: int| 0 <= i < self.seen@.len() ==> #[trigger] self.seen@[i] == self.order@.contains(i as usize)
    }

    /// A counter at zero for `n` workers.
    pub fn new(n: usize) -> (r: SharedCounter)
        ensures
            r.wf(),
            r.workers() == n,
            r@ == Seq::<usize>::empty(),
    {
        let seen: Vec<bool> = vec![false; n];
        SharedCounter { order: Vec::new(), seen }
    }

    /// The counter's value.
    pub fn value(&self) -> (r: usize)
        ensures
            r == self.value_spec(),
    {
        self.order.len()
    }

    /// Whether worker `index` has incremented.
    pub fn has_incremented(&self, index: usize) -> (r: bool)
        requires
            self.wf(),
        ensures
            r == self@.contains(index),
    {
        if index < self.seen.len() {
            self.seen[index]
        } else {
            proof {
                if self@.contains(index) {
                    let k = self@.index_of(index);
                }
            }
            false
        }
    }

    /// Worker `index` increments the counter by one and gets the new value.
    /// A worker outside the counter's range, or one that already
    /// incremented, is refused and the counter is left as it was.
    pub fn increment(&mut self, index: usize) -> (r: Result<usize, WorkerError>)
        requires
            old(self).wf(),
        ensures
            final(self).wf(),
            final(self).workers() == old(self).workers(),
            r matches Ok(v) ==> increment_step(*old(self), index, *final(self), v as nat),
            r matches Err(e) ==> *final(self) == *old(self),
            r == Err::<usize, WorkerError>(WorkerError::InvalidIndex { index }) <==> index >= old(self).workers(),
            r == Err::<usize, WorkerError>(WorkerError::AlreadyRecorded { index }) <==> (index < old(self).workers()
                && old(self)@.contains(index)),
            r is Ok <==> (index < old(self).workers() && !old(self)@.contains(index)),
    {
        if index >= self.seen.len() {
            return Err(WorkerError::InvalidIndex { index });
        }
        if self.seen[index] {
            return Err(WorkerError::AlreadyRecorded { index });
        }
        proof {
            lemma_room_for_missing(self.order@, self.seen@.len(), index);
        }
        let ghost before = self.order@;
        self.order.push(index);
        self.seen.set(index, true);
        proof {
            assert forall|i: int| 0 <= i < self.seen@.len() implies #[trigger] self.seen@[i] == self.order@.contains(i as usize) by {
                if i != index as int {
                    if self.order@.contains(i as usize) {
                        let k = self.order@.index_of(i as usize);
                        assert(k < before.len());
                        assert(before[k] == i as usize);
                    }
                    if before.contains(i as usize) {
                        let k = before.index_of(i as usize);
                        assert(self.order@[k] == i as usize);
                    }
                } else {
                    assert(self.order@[before.len() as int] == index);
                }
            }
        }
        Ok(self.order.len())
    }

    /// The number of workers the counter serves.
    pub fn worker_count(&self) -> (r: usize)
        ensures
            r == self.workers(),
    {
        self.seen.len()
    }

    /// Whether every worker has incremented.
    pub fn is_complete(&self) -> (r: bool)
        requires
            self.wf(),
        ensures
            r == self.complete(),
    {
        let mut i: usize = 0;
        while i < self.seen.len()
            invariant
                self.wf(),
                i <= self.seen@.len(),
                forall|j: usize| (j as nat) < (i as nat) ==> #[trigger] self@.contains(j),
            decreases self.seen@.len() - i,
        {
            if !self.seen[i] {
                return false;
            }
            i = i + 1;
        }
        true
    }

    /// The workers in the order in which they incremented.
    pub fn history(&self) -> (r: Vec<usize>)
        ensures
            r@ == self@,
    {
        self.order.clone()
    }
}

/// Once every worker has incremented, the counter's value is the number of
/// workers.
pub proof fn lemma_complete_value(c: &SharedCounter)
    requires
        c.wf(),
        c.complete(),
    ensures
        c.value_spec() == c.workers(),
{
    reveal(SharedCounter::wf);
    lemma_distinct_len(c@, c.workers());
}

/// Worker `index` took `before` to `after` by one increment that returned `v`.
pub open spec fn increment_step(before: SharedCounter, index: usize, after: SharedCounter, v: nat) -> bool {
    &&& after@ == before@.push(index)
    &&& after.workers() == before.workers()
    &&& v == before.value_spec() + 1
    &&& v == after.value_spec()
}

/// Increments are serialized: of two increments made one after the other,
/// the second returns exactly one more than the first, so no two return the
/// same value and none is lost; the history names each worker at most once
/// and never holds more increments than there are workers.
pub proof fn lemma_increments_serialized(
    c0: SharedCounter,
    w1: usize,
    c1: SharedCounter,
    v1: nat,
    w2: usize,
    c2: SharedCounter,
    v2: nat,
)
    requires
        c0.wf(),
        c1.wf(),
        c2.wf(),
        increment_step(c0, w1, c1, v1),
        increment_step(c1, w2, c2, v2),
    ensures
        v2 == v1 + 1,
        c2.value_spec() == c0.value_spec() + 2,
        c2@[v1 - 1] == w1,
        c2@[v2 - 1] == w2,
        w1 != w2,
        c2@.no_duplicates(),
        c2.value_spec() <= c2.workers(),
{
    reveal(SharedCounter::wf);
    lemma_distinct_len(c2@, c2.workers());
    assert(c2@[v1 - 1] == c1@[v1 - 1]);
}

} // verus!
