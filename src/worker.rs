use vstd::prelude::*;
use crate::counter::{increment_step, SharedCounter};
use crate::delay::DelayTable;
use crate::error::WorkerError;
use crate::line::{format_line, is_line, line_spec};
use crate::log::SharedLog;

verus! {

/// Where a worker stands. A worker moves only forward:
/// created, sleeping, waiting for the counter, waiting for the log, done;
/// or it fails at one of its steps and stays failed.
#[derive(Debug, Clone, Copy, PartialEq, Eq, Structural)]
pub enum WorkerPhase {
    Created,
    Sleeping { delay: u64 },
    AwaitingCounterLock { delay: u64 },
    AwaitingLogLock { delay: u64, counter: usize },
    Done { counter: usize, offset: usize },
    Failed { error: WorkerError },
}

/// The decisions of one worker. The thread that runs it performs each
/// step's outside work (the sleep, taking a lock, writing the file) and
/// reports back; the shared counter and log are handed in while their
/// locks are held.
pub struct Worker {
    pub index: usize,
    pub phase: WorkerPhase,
}

impl Worker {
    /// A fresh worker for slot `index`.
    pub fn new(index: usize) -> (r: Worker)
        ensures
            r.index == index,
            r.phase == WorkerPhase::Created,
    {
        Worker { index, phase: WorkerPhase::Created }
    }

    /// Reads this worker's delay from the table: the worker then sleeps for
    /// the delay returned. A worker the table has no entry for fails.
    pub fn begin(&mut self, table: &DelayTable) -> (r: Result<u64, WorkerError>)
        ensures
            final(self).index == old(self).index,
            old(self).phase != WorkerPhase::Created ==> r == Err::<u64, WorkerError>(
                WorkerError::OutOfOrder { index: old(self).index },
            ) && final(self).phase == old(self).phase,
            old(self).phase == WorkerPhase::Created && old(self).index < table@.len() ==> r == Ok::<u64, WorkerError>(table@[old(self).index as int])
                && final(self).phase == (WorkerPhase::Sleeping { delay: table@[old(self).index as int] }),
            old(self).phase == WorkerPhase::Created && old(self).index >= table@.len() ==> r == Err::<u64, WorkerError>(
                WorkerError::InvalidIndex { index: old(self).index },
            ) && final(self).phase == (WorkerPhase::Failed { error: WorkerError::InvalidIndex { index: old(self).index } }),
    {
        if self.phase != WorkerPhase::Created {
            return Err(WorkerError::OutOfOrder { index: self.index });
        }
        match table.delay_of(self.index) {
            Some(delay) => {
                self.phase = WorkerPhase::Sleeping { delay };
                Ok(delay)
            },
            None => {
                let error = WorkerError::InvalidIndex { index: self.index };
                self.phase = WorkerPhase::Failed { error };
                Err(error)
            },
        }
    }

    /// The full delay has elapsed: the worker now waits for the counter.
    pub fn wake(&mut self) -> (r: Result<(), WorkerError>)
        ensures
            final(self).index == old(self).index,
            old(self).phase matches WorkerPhase::Sleeping { delay } ==> r is Ok
                && final(self).phase == (WorkerPhase::AwaitingCounterLock { delay }),
            old(self).phase !is Sleeping ==> r == Err::<(), WorkerError>(WorkerError::OutOfOrder { index: old(self).index })
                && final(self).phase == old(self).phase,
    {
        match self.phase {
            WorkerPhase::Sleeping { delay } => {
                self.phase = WorkerPhase::AwaitingCounterLock { delay };
                Ok(())
            },
            _ => Err(WorkerError::OutOfOrder { index: self.index }),
        }
    }

    /// With the counter's lock held, increments it once for this worker and
    /// returns the new value. If the counter refuses, the worker fails with
    /// the counter's error.
    pub fn increment(&mut self, counter: &mut SharedCounter) -> (r: Result<usize, WorkerError>)
        requires
            old(counter).wf(),
        ensures
            final(self).index == old(self).index,
            final(counter).wf(),
            final(counter).workers() == old(counter).workers(),
            old(self).phase !is AwaitingCounterLock ==> r == Err::<usize, WorkerError>(
                WorkerError::OutOfOrder { index: old(self).index },
            ) && final(self).phase == old(self).phase && *final(counter) == *old(counter),
            old(self).phase matches WorkerPhase::AwaitingCounterLock { delay } ==> {
                &&& r matches Ok(v) ==> increment_step(*old(counter), old(self).index, *final(counter), v as nat)
                    && final(self).phase == (WorkerPhase::AwaitingLogLock { delay, counter: v })
                &&& r matches Err(e) ==> *final(counter) == *old(counter)
                    && final(self).phase == (WorkerPhase::Failed { error: e })
                &&& r is Ok <==> (old(self).index < old(counter).workers() && !old(counter)@.contains(old(self).index))
            },
    {
        match self.phase {
            WorkerPhase::AwaitingCounterLock { delay } => {
                match counter.increment(self.index) {
                    Ok(v) => {
                        self.phase = WorkerPhase::AwaitingLogLock { delay, counter: v };
                        Ok(v)
                    },
                    Err(e) => {
                        self.phase = WorkerPhase::Failed { error: e };
                        Err(e)
                    },
                }
            },
            _ => Err(WorkerError::OutOfOrder { index: self.index }),
        }
    }

    /// The line this worker will append, once it waits for the log.
    pub fn line(&self) -> (r: Option<Vec<u8>>)
        ensures
            self.phase matches WorkerPhase::AwaitingLogLock { delay, counter } ==> r matches Some(l)
                && l@ == line_spec(self.index as nat, counter as nat, delay as nat) && is_line(l@),
            self.phase !is AwaitingLogLock ==> r is None,
    {
        match self.phase {
            WorkerPhase::AwaitingLogLock { delay, counter } => Some(format_line(self.index, counter, delay)),
            _ => None,
        }
    }

    /// With the log's lock held (and, where the log mirrors a file, after
    /// its line was written there at `log.next_offset()`), appends this
    /// worker's line and finishes. If the log refuses, the worker fails
    /// with the log's error.
    pub fn append(&mut self, log: &mut SharedLog) -> (r: Result<usize, WorkerError>)
        requires
            old(log).wf(),
        ensures
            final(self).index == old(self).index,
            final(log).wf(),
            final(log).workers() == old(log).workers(),
            old(self).phase !is AwaitingLogLock ==> r == Err::<usize, WorkerError>(
                WorkerError::OutOfOrder { index: old(self).index },
            ) && final(self).phase == old(self).phase && *final(log) == *old(log),
            old(self).phase matches WorkerPhase::AwaitingLogLock { delay, counter } ==> {
                &&& r matches Ok(offset) ==> {
                    &&& offset == old(log).contents().len()
                    &&& final(log).contents() == old(log).contents() + line_spec(old(self).index as nat, counter as nat, delay as nat)
                    &&& final(log)@ == old(log)@.push(old(self).index)
                    &&& final(self).phase == (WorkerPhase::Done { counter, offset })
                }
                &&& r matches Err(e) ==> *final(log) == *old(log)
                    && final(self).phase == (WorkerPhase::Failed { error: e })
                &&& r is Ok <==> (old(self).index < old(log).workers() && !old(log)@.contains(old(self).index))
            },
    {
        match self.phase {
            WorkerPhase::AwaitingLogLock { delay, counter } => {
                let line = format_line(self.index, counter, delay);
                match log.append(self.index, &line) {
                    Ok(offset) => {
                        self.phase = WorkerPhase::Done { counter, offset };
                        Ok(offset)
                    },
                    Err(e) => {
                        self.phase = WorkerPhase::Failed { error: e };
                        Err(e)
                    },
                }
            },
            _ => Err(WorkerError::OutOfOrder { index: self.index }),
        }
    }

    /// Writing this worker's line failed: the worker fails, and the log is
    /// not touched. The counter keeps the increment already made.
    pub fn write_failed(&mut self) -> (r: WorkerError)
        ensures
            final(self).index == old(self).index,
            old(self).phase is AwaitingLogLock ==> r == (WorkerError::WriteFailed { index: old(self).index })
                && final(self).phase == (WorkerPhase::Failed { error: r }),
            old(self).phase !is AwaitingLogLock ==> r == (WorkerError::OutOfOrder { index: old(self).index })
                && final(self).phase == old(self).phase,
    {
        match self.phase {
            WorkerPhase::AwaitingLogLock { .. } => {
                let error = WorkerError::WriteFailed { index: self.index };
                self.phase = WorkerPhase::Failed { error };
                error
            },
            _ => WorkerError::OutOfOrder { index: self.index },
        }
    }

    /// What the worker hands its coordinator when it is joined: success
    /// once done, its error once failed.
    pub fn outcome(&self) -> (r: Result<(), WorkerError>)
        ensures
            self.phase is Done ==> r == Ok::<(), WorkerError>(()),
            self.phase matches WorkerPhase::Failed { error } ==> r == Err::<(), WorkerError>(error),
            !(self.phase is Done) && !(self.phase is Failed) ==> r == Err::<(), WorkerError>(
                WorkerError::OutOfOrder { index: self.index },
            ),
    {
        match self.phase {
            WorkerPhase::Done { .. } => Ok(()),
            WorkerPhase::Failed { error } => Err(error),
            _ => Err(WorkerError::OutOfOrder { index: self.index }),
        }
    }
}

} // verus!
