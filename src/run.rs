use vstd::prelude::*;
use crate::coordinator::{Coordinator, JoinDecision, RunReport};
use crate::counter::SharedCounter;
use crate::delay::DelayTable;
use crate::error::{RunError, WorkerError};
use crate::log::SharedLog;
use crate::worker::Worker;

verus! {

/// The state a run leaves behind: its outcome, the counter and the log.
pub struct RunSummary {
    pub result: Result<RunReport, RunError>,
    pub counter: SharedCounter,
    pub log: SharedLog,
}

/// `failing` names one of the workers `0..n`.
pub open spec fn fails_within(failing: Option<usize>, n: nat) -> bool {
    failing matches Some(k) && (k as nat) < n
}

/// The workers `0..i` in order, but for `skipped`.
pub open spec fn workers_except(i: nat, skipped: Option<usize>) -> Seq<usize>
    decreases i,
{
    if i == 0 {
        Seq::empty()
    } else {
        let k = (i - 1) as nat;
        let rest = workers_except(k, skipped);
        if skipped == Some(k as usize) {
            rest
        } else {
            rest.push(k as usize)
        }
    }
}

proof fn lemma_workers_except(i: nat, skipped: Option<usize>)
    requires
        i <= usize::MAX + 1,
    ensures
        forall|j: usize| #[trigger] workers_except(i, skipped).contains(j) <==> ((j as nat) < i && skipped != Some(j)),
        workers_except(i, skipped).len() == if skipped matches Some(k) && (k as nat) < i { i - 1 } else { i as int },
    decreases i,
{
    if i > 0 {
        let k = (i - 1) as nat;
        lemma_workers_except(k, skipped);
        let rest = workers_except(k, skipped);
        if skipped != Some(k as usize) {
            assert forall|j: usize| #[trigger] rest.push(k as usize).contains(j) <==> ((j as nat) < i && skipped != Some(j)) by {
                if j == k as usize {
                    assert(rest.push(k as usize)[rest.len() as int] == j);
                }
                if rest.push(k as usize).contains(j) && j != k as usize {
                    let p = rest.push(k as usize).index_of(j);
                    assert(rest[p] == j);
                }
                if rest.contains(j) {
                    let p = rest.index_of(j);
                    assert(rest.push(k as usize)[p] == j);
                }
            }
        }
    }
}

/// Runs every worker of `table` to its end on the calling thread, worker
/// `0` first, then joins them in the same order. When `failing_write` names
/// a worker, writing that worker's line fails.
///
/// Without a failure (or with one naming no worker) the run succeeds: the
/// counter ends at the number of workers, the log holds one line per
/// worker and the join order is `0, 1, ...`. With one, the run reports
/// that worker's failure; the increments stay, every other worker's line
/// stays, and the failed worker leaves none.
pub fn run_in_order(table: &DelayTable, failing_write: Option<usize>) -> (r: RunSummary)
    ensures
        r.counter.wf(),
        r.log.wf(),
        r.counter.workers() == table@.len(),
        r.log.workers() == table@.len(),
        r.counter.value_spec() == table@.len(),
        r.log@ == workers_except(table@.len(), failing_write),
        fails_within(failing_write, table@.len()) ==> r.result == Err::<RunReport, RunError>(
            RunError::WorkerFailure { error: WorkerError::WriteFailed { index: failing_write->0 } },
        ) && r.log@.len() == table@.len() - 1,
        !fails_within(failing_write, table@.len()) ==> (r.result matches Ok(rep) && rep.final_counter
            == table@.len() && rep.line_count == table@.len() && rep.join_order@ == Seq::new(
            table@.len(),
            |j: int| j as usize,
        )),
{
    let n = table.len();
    let mut counter = SharedCounter::new(n);
    let mut log = SharedLog::new(n);
    let mut outcomes: Vec<Result<(), WorkerError>> = Vec::new();
    let mut i: usize = 0;
    while i < n
        invariant
            n == table@.len(),
            i <= n,
            counter.wf(),
            counter.workers() == n,
            counter@ == Seq::new(i as nat, |j: int| j as usize),
            log.wf(),
            log.workers() == n,
            log@ == workers_except(i as nat, failing_write),
            outcomes@.len() == i,
            forall|j: int| 0 <= j < i ==> #[trigger] outcomes@[j] == if failing_write == Some(j as usize) {
                Err::<(), WorkerError>(WorkerError::WriteFailed { index: j as usize })
            } else {
                Ok::<(), WorkerError>(())
            },
        decreases n - i,
    {
        proof {
            lemma_workers_except(i as nat, failing_write);
            assert(!counter@.contains(i)) by {
                if counter@.contains(i) {
                    let p = counter@.index_of(i);
                }
            }
        }
        let mut worker = Worker::new(i);
        let _ = worker.begin(table);
        let _ = worker.wake();
        let _ = worker.increment(&mut counter);
        if failing_write == Some(i) {
            let _ = worker.write_failed();
        } else {
            let _ = worker.append(&mut log);
        }
        let outcome = worker.outcome();
        assert(outcome == if failing_write == Some(i) {
            Err::<(), WorkerError>(WorkerError::WriteFailed { index: i })
        } else {
            Ok::<(), WorkerError>(())
        });
        outcomes.push(outcome);
        assert(counter@ =~= Seq::new((i + 1) as nat, |j: int| j as usize));
        i = i + 1;
    }
    proof {
        lemma_workers_except(n as nat, failing_write);
    }
    let mut coordinator = Coordinator::new(n);
    let mut j: usize = 0;
    let mut aborted = false;
    while j < n && !aborted
        invariant
            n == table@.len(),
            j <= n,
            outcomes@.len() == n,
            forall|m: int| 0 <= m < n ==> #[trigger] outcomes@[m] == if failing_write == Some(m as usize) {
                Err::<(), WorkerError>(WorkerError::WriteFailed { index: m as usize })
            } else {
                Ok::<(), WorkerError>(())
            },
            coordinator.workers_spec() == n,
            !aborted ==> coordinator.join_order_spec() == Seq::new(j as nat, |m: int| m as usize),
            !aborted ==> coordinator.failure_spec() is None,
            !aborted ==> !fails_within(failing_write, j as nat),
            aborted ==> fails_within(failing_write, n as nat) && coordinator.failure_spec() == Some(
                WorkerError::WriteFailed { index: failing_write->0 },
            ),
        decreases n - j + if aborted { 0int } else { 1int },
    {
        let decision = coordinator.record_join(j, outcomes[j]);
        assert(coordinator.join_order_spec() =~= Seq::new((j + 1) as nat, |m: int| m as usize));
        if decision == JoinDecision::Abort {
            aborted = true;
        } else {
            j = j + 1;
        }
    }
    proof {
        if !fails_within(failing_write, n as nat) {
            assert(j == n);
            assert forall|w: usize| (w as nat) < n implies #[trigger] counter@.contains(w) by {
                assert(counter@[w as int] == w);
            }
            assert forall|w: usize| (w as nat) < n implies #[trigger] log@.contains(w) by {
                assert(workers_except(n as nat, failing_write).contains(w));
            }
        }
    }
    let result = coordinator.report(&counter, &log);
    RunSummary { result, counter, log }
}

} // verus!
