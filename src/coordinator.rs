use vstd::prelude::*;
use crate::counter::{lemma_complete_value, SharedCounter};
use crate::error::{RunError, WorkerError};
use crate::line::newline_count;
use crate::log::{lemma_one_line_per_worker, SharedLog};

verus! {

/// What the coordinator does after a join.
#[derive(Debug, Clone, Copy, PartialEq, Eq, Structural)]
pub enum JoinDecision {
    /// Join the next worker.
    Continue,
    /// A worker failed: stop and report it.
    Abort,
}

/// The outcome of a successful run.
pub struct RunReport {
    /// The counter's final value.
    pub final_counter: usize,
    /// The number of lines in the log.
    pub line_count: usize,
    /// The order in which the workers were joined. This is the order in
    /// which their handles were walked, not the order in which they
    /// finished.
    pub join_order: Vec<usize>,
}

/// Retires the workers' handles one at a time and decides the run's
/// outcome. The first failed worker aborts the run.
pub struct Coordinator {
    workers: usize,
    join_order: Vec<usize>,
    failure: Option<WorkerError>,
}

impl Coordinator {
    /// The number of workers in the run.
    pub closed spec fn workers_spec(&self) -> nat {
        self.workers as nat
    }

    /// The workers joined so far, in join order.
    pub closed spec fn join_order_spec(&self) -> Seq<usize> {
        self.join_order@
    }

    /// The failure that aborted the run, if any.
    pub closed spec fn failure_spec(&self) -> Option<WorkerError> {
        self.failure
    }

    /// A coordinator for `n` workers, none joined yet.
    pub fn new(n: usize) -> (r: Coordinator)
        ensures
            r.workers_spec() == n,
            r.join_order_spec() == Seq::<usize>::empty(),
            r.failure_spec() is None,
    {
        Coordinator { workers: n, join_order: Vec::new(), failure: None }
    }

    /// Records that worker `index` was joined with `outcome`. The first
    /// failure is kept and aborts the run; later joins keep aborting.
    pub fn record_join(&mut self, index: usize, outcome: Result<(), WorkerError>) -> (r: JoinDecision)
        ensures
            final(self).workers_spec() == old(self).workers_spec(),
            final(self).join_order_spec() == old(self).join_order_spec().push(index),
            old(self).failure_spec() is Some ==> final(self).failure_spec() == old(self).failure_spec()
                && r == JoinDecision::Abort,
            old(self).failure_spec() is None ==> match outcome {
                Ok(()) => final(self).failure_spec() is None && r == JoinDecision::Continue,
                Err(e) => final(self).failure_spec() == Some(e) && r == JoinDecision::Abort,
            },
    {
        self.join_order.push(index);
        if self.failure.is_some() {
            return JoinDecision::Abort;
        }
        match outcome {
            Ok(()) => JoinDecision::Continue,
            Err(e) => {
                self.failure = Some(e);
                JoinDecision::Abort
            },
        }
    }

    /// The workers joined so far, in join order.
    pub fn join_order(&self) -> (r: Vec<usize>)
        ensures
            r@ == self.join_order_spec(),
    {
        self.join_order.clone()
    }

    /// The run's outcome. A recorded failure is reported as it is. Without
    /// one the run succeeded when every worker was joined, incremented the
    /// counter and appended its line; the counter then stands at the number
    /// of workers and the log holds as many lines.
    pub fn report(&self, counter: &SharedCounter, log: &SharedLog) -> (r: Result<RunReport, RunError>)
        requires
            counter.wf(),
            log.wf(),
        ensures
            self.failure_spec() matches Some(e) ==> r == Err::<RunReport, RunError>(RunError::WorkerFailure { error: e }),
            self.failure_spec() is None ==> (r is Ok <==> {
                &&& counter.workers() == self.workers_spec()
                &&& log.workers() == self.workers_spec()
                &&& counter.complete()
                &&& log.complete()
                &&& self.join_order_spec().len() == self.workers_spec()
            }),
            r matches Err(e) ==> self.failure_spec() is None ==> e == RunError::Incomplete,
            r matches Ok(rep) ==> {
                &&& rep.final_counter == self.workers_spec()
                &&& rep.final_counter == counter.value_spec()
                &&& rep.line_count == self.workers_spec()
                &&& rep.line_count == newline_count(log.contents())
                &&& rep.join_order@ == self.join_order_spec()
            },
    {
        if let Some(error) = self.failure {
            return Err(RunError::WorkerFailure { error });
        }
        let n = self.workers;
        if counter.worker_count() != n || log.worker_count() != n || !counter.is_complete()
            || !log.is_complete() || self.join_order.len() != n {
            return Err(RunError::Incomplete);
        }
        proof {
            lemma_complete_value(counter);
            lemma_one_line_per_worker(log);
        }
        Ok(RunReport { final_counter: counter.value(), line_count: log.line_count(), join_order: self.join_order.clone() })
    }
}

} // verus!
