use vstd::prelude::*;
use crate::cover::{covers, distinct_below, lemma_distinct_len, lemma_room_for_missing};
use crate::error::WorkerError;
use crate::line::{
    check_line, is_line, lemma_line_has_one_newline, lemma_newline_count_concat, newline_count,
    push_bytes,
};

verus! {

/// The append-only log the workers share. Each worker appends one line.
/// The log keeps its own write cursor (the length of its contents) and
/// the end offset of every record, so the offset of a new record is
/// decided together with the write, in one step.
pub struct SharedLog {
    bytes: Vec<u8>,
    ends: Vec<usize>,
    writers: Vec<usize>,
    seen: Vec<bool>,
}

impl View for SharedLog {
    type V = Seq<usize>;

    /// The workers that appended, in the order of their records.
    closed spec fn view(&self) -> Seq<usize> {
        self.writers@
    }
}

impl SharedLog {
    /// The number of workers the log serves.
    pub closed spec fn workers(&self) -> nat {
        self.seen@.len()
    }

    /// The log's contents.
    pub closed spec fn contents(&self) -> Seq<u8> {
        self.bytes@
    }

    /// The end offset of each record, in the order of the records.
    pub closed spec fn ends(&self) -> Seq<usize> {
        self.ends@
    }

    /// The offset at which record `k` starts.
    pub open spec fn start_of(&self, k: int) -> int {
        if k == 0 {
            0
        } else {
            self.ends()[k - 1] as int
        }
    }

    /// The bytes of record `k`.
    pub open spec fn record(&self, k: int) -> Seq<u8> {
        self.contents().subrange(self.start_of(k), self.ends()[k] as int)
    }

    /// Every worker has appended its line.
    pub open spec fn complete(&self) -> bool {
        covers(self@, self.workers())
    }

    pub closed spec fn wf(&self) -> bool {
        &&& self.seen@.len() <= usize::MAX
        &&& distinct_below(self.writers@, self.seen@.len())
        &&& forall|i: int| 0 <= i < self.seen@.len() ==> #[trigger] self.seen@[i] == self.writers@.contains(i as usize)
        &&& self.ends@.len() == self.writers@.len()
        &&& self.ends@.len() == 0 ==> self.bytes@.len() == 0
        &&& self.ends@.len() > 0 ==> self.ends@.last() == self.bytes@.len()
        &&& forall|j: int, k: int| 0 <= j < k < self.ends@.len() ==> self.ends@[j] < self.ends@[k]
        &&& forall|k: int| 0 <= k < self.ends@.len() ==> is_line(#[trigger] self.record(k))
        &&& newline_count(self.bytes@) == self.ends@.len()
    }

    /// An empty log for `n` workers.
    pub fn new(n: usize) -> (r: SharedLog)
        ensures
            r.wf(),
            r.workers() == n,
            r@ == Seq::<usize>::empty(),
            r.contents() == Seq::<u8>::empty(),
    {
        SharedLog { bytes: Vec::new(), ends: Vec::new(), writers: Vec::new(), seen: vec![false; n] }
    }

    /// The offset at which the next record will start: the log's length.
    pub fn next_offset(&self) -> (r: usize)
        ensures
            r == self.contents().len(),
    {
        self.bytes.len()
    }

    /// The number of records.
    pub fn line_count(&self) -> (r: usize)
        requires
            self.wf(),
        ensures
            r == self@.len(),
            r == self.ends().len(),
    {
        self.ends.len()
    }

    /// Worker `index` appends `line`, which must be a single line of text.
    /// On success the line is placed at the current end of the log and its
    /// offset is returned. A worker outside the log's range, one that
    /// already appended, or text that is not a single line is refused and
    /// the log is left as it was.
    pub fn append(&mut self, index: usize, line: &Vec<u8>) -> (r: Result<usize, WorkerError>)
        requires
            old(self).wf(),
        ensures
            final(self).wf(),
            final(self).workers() == old(self).workers(),
            r matches Ok(offset) ==> {
                &&& offset == old(self).contents().len()
                &&& final(self).contents() == old(self).contents() + line@
                &&& final(self)@ == old(self)@.push(index)
                &&& final(self).ends() == old(self).ends().push(final(self).contents().len() as usize)
            },
            r matches Err(e) ==> *final(self) == *old(self),
            r == Err::<usize, WorkerError>(WorkerError::InvalidIndex { index }) <==> index >= old(self).workers(),
            r == Err::<usize, WorkerError>(WorkerError::AlreadyRecorded { index }) <==> (index < old(self).workers()
                && old(self)@.contains(index)),
            r == Err::<usize, WorkerError>(WorkerError::MalformedLine { index }) <==> (index < old(self).workers()
                && !old(self)@.contains(index) && !is_line(line@)),
            r is Ok <==> (index < old(self).workers() && !old(self)@.contains(index) && is_line(line@)),
    {
        if index >= self.seen.len() {
            return Err(WorkerError::InvalidIndex { index });
        }
        if self.seen[index] {
            return Err(WorkerError::AlreadyRecorded { index });
        }
        if !check_line(line) {
            return Err(WorkerError::MalformedLine { index });
        }
        proof {
            lemma_room_for_missing(self.writers@, self.seen@.len(), index);
        }
        let ghost before = *self;
        let offset = self.bytes.len();
        push_bytes(&mut self.bytes, line);
        let end = self.bytes.len();
        self.ends.push(end);
        self.writers.push(index);
        self.seen.set(index, true);
        proof {
            let wb = before.writers@;
            assert forall|i: int| 0 <= i < self.seen@.len() implies #[trigger] self.seen@[i] == self.writers@.contains(i as usize) by {
                if i != index as int {
                    if self.writers@.contains(i as usize) {
                        let k = self.writers@.index_of(i as usize);
                        assert(k < wb.len());
                        assert(wb[k] == i as usize);
                    }
                    if wb.contains(i as usize) {
                        let k = wb.index_of(i as usize);
                        assert(self.writers@[k] == i as usize);
                    }
                } else {
                    assert(self.writers@[wb.len() as int] == index);
                }
            }
            let n = before.ends@.len() as int;
            assert(self.start_of(n) == offset) by {
                if n > 0 {
                    assert(self.ends@[n - 1] == before.ends@[n - 1]);
                }
            }
            assert(line@.len() > 0);
            assert forall|j: int, k: int| 0 <= j < k < self.ends@.len() implies self.ends@[j] < self.ends@[k] by {
                if k == n && j < n {
                    assert(before.ends@[j] <= before.ends@[n - 1]);
                }
            }
            assert forall|k: int| 0 <= k < self.ends@.len() implies is_line(#[trigger] self.record(k)) by {
                if k < n {
                    assert(self.start_of(k) == before.start_of(k));
                    assert(before.start_of(k) <= before.ends@[k]) by {
                        if k > 0 {
                            assert(before.ends@[k - 1] < before.ends@[k]);
                        }
                    }
                    assert(before.ends@[k] <= before.bytes@.len()) by {
                        if k < n - 1 {
                            assert(before.ends@[k] < before.ends@[n - 1]);
                        }
                    }
                    assert(self.record(k) =~= before.record(k));
                } else {
                    assert(self.record(k) =~= line@);
                }
            }
            lemma_newline_count_concat(before.bytes@, line@);
            lemma_line_has_one_newline(line@);
        }
        Ok(offset)
    }

    /// The number of workers the log serves.
    pub fn worker_count(&self) -> (r: usize)
        ensures
            r == self.workers(),
    {
        self.seen.len()
    }

    /// Whether every worker has appended.
    pub fn is_complete(&self) -> (r: bool)
        requires
            self.wf(),
        ensures
            r == self.complete(),
    {
        let mut i: usize = 0;
        while i < self.seen.len()
            invariant
                self.wf(),
                i <= self.seen@.len(),
                forall|j: usize| (j as nat) < (i as nat) ==> #[trigger] self@.contains(j),
            decreases self.seen@.len() - i,
        {
            if !self.seen[i] {
                return false;
            }
            i = i + 1;
        }
        true
    }

    /// The log's contents.
    pub fn bytes(&self) -> (r: Vec<u8>)
        ensures
            r@ == self.contents(),
    {
        self.bytes.clone()
    }

    /// The workers in the order of their records.
    pub fn writers(&self) -> (r: Vec<usize>)
        ensures
            r@ == self@,
    {
        self.writers.clone()
    }
}

/// The log holds one line per record: its newlines count its records, and
/// once every worker has appended there are exactly as many lines as
/// workers.
pub proof fn lemma_one_line_per_worker(log: &SharedLog)
    requires
        log.wf(),
    ensures
        newline_count(log.contents()) == log@.len(),
        log.complete() ==> newline_count(log.contents()) == log.workers(),
{
    reveal(SharedLog::wf);
    lemma_distinct_len(log@, log.workers());
}

/// The records tile the log: the first starts at offset zero, each starts
/// where the one before it ends, each is a non-empty single line, records
/// never overlap, and the last ends at the end of the contents.
pub proof fn lemma_records_tile(log: &SharedLog)
    requires
        log.wf(),
    ensures
        log.ends().len() == log@.len(),
        log.ends().len() == 0 ==> log.contents().len() == 0,
        log.ends().len() > 0 ==> log.ends().last() == log.contents().len(),
        forall|k: int| 0 <= k < log.ends().len() ==> log.start_of(k) < log.ends()[k],
        forall|k: int| 0 < k < log.ends().len() ==> log.start_of(k) == log.ends()[k - 1],
        forall|j: int, k: int| 0 <= j < k < log.ends().len() ==> log.ends()[j] <= log.start_of(k),
        forall|k: int| 0 <= k < log.ends().len() ==> is_line(#[trigger] log.record(k)),
{
    reveal(SharedLog::wf);
    assert forall|k: int| 0 <= k < log.ends().len() implies log.start_of(k) < log.ends()[k] by {
        if k > 0 {
            assert(log.ends()[k - 1] < log.ends()[k]);
        } else {
            assert(is_line(log.record(0)));
        }
    }
    assert forall|j: int, k: int| 0 <= j < k < log.ends().len() implies log.ends()[j] <= log.start_of(k) by {
        if j < k - 1 {
            assert(log.ends()[j] < log.ends()[k - 1]);
        }
    }
}

} // verus!
