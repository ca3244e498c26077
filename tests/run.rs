use worker_sim::coordinator::{Coordinator, JoinDecision};
use worker_sim::counter::SharedCounter;
use worker_sim::delay::DelayTable;
use worker_sim::error::{RunError, WorkerError};
use worker_sim::log::SharedLog;
use worker_sim::run::run_in_order;
use worker_sim::worker::{Worker, WorkerPhase};

fn table(draws: Vec<u64>, max_delay: u64) -> DelayTable {
    DelayTable::from_draws(draws, max_delay).unwrap()
}

fn lines(bytes: &[u8]) -> Vec<String> {
    String::from_utf8(bytes.to_vec())
        .unwrap()
        .lines()
        .map(|l| l.to_string())
        .collect()
}

fn counter_of(line: &str) -> usize {
    let start = line.find("counter=").unwrap() + "counter=".len();
    let rest = &line[start..];
    let end = rest.find(',').unwrap();
    rest[..end].parse().unwrap()
}

#[test]
fn scenario_no_workers() {
    let summary = run_in_order(&table(vec![], 5), None);
    let report = summary.result.ok().unwrap();
    assert_eq!(report.final_counter, 0);
    assert_eq!(report.line_count, 0);
    assert!(report.join_order.is_empty());
    assert!(summary.log.bytes().is_empty());
    assert_eq!(summary.counter.value(), 0);
}

#[test]
fn scenario_one_worker_no_delay() {
    let summary = run_in_order(&table(vec![0], 0), None);
    let report = summary.result.ok().unwrap();
    assert_eq!(report.final_counter, 1);
    assert_eq!(report.line_count, 1);
    let text = String::from_utf8(summary.log.bytes()).unwrap();
    assert_eq!(text, "worker 0, counter=1, delay=0s\n");
    assert_eq!(counter_of(&lines(&summary.log.bytes())[0]), 1);
}

#[test]
fn scenario_five_workers_no_delay() {
    let summary = run_in_order(&table(vec![0; 5], 0), None);
    let report = summary.result.ok().unwrap();
    assert_eq!(report.final_counter, 5);
    assert_eq!(report.line_count, 5);
    assert_eq!(report.join_order, vec![0, 1, 2, 3, 4]);
    let all = lines(&summary.log.bytes());
    assert_eq!(all.len(), 5);
    let mut seen: Vec<usize> = all.iter().map(|l| counter_of(l)).collect();
    seen.sort();
    assert_eq!(seen, vec![1, 2, 3, 4, 5]);
}

#[test]
fn scenario_third_append_fails() {
    let summary = run_in_order(&table(vec![0; 5], 0), Some(2));
    match summary.result {
        Err(RunError::WorkerFailure { error }) => {
            assert_eq!(error, WorkerError::WriteFailed { index: 2 })
        }
        _ => panic!("the run should report the failed worker"),
    }
    assert_eq!(summary.counter.value(), 5);
    assert_eq!(summary.log.line_count(), 4);
    assert_eq!(summary.log.writers(), vec![0, 1, 3, 4]);
}

#[test]
fn third_append_failure_keeps_partial_count() {
    let t = table(vec![0; 5], 0);
    let mut counter = SharedCounter::new(5);
    let mut log = SharedLog::new(5);
    let mut coordinator = Coordinator::new(5);
    for i in 0..3 {
        let mut w = Worker::new(i);
        assert_eq!(w.begin(&t), Ok(0));
        assert_eq!(w.wake(), Ok(()));
        assert_eq!(w.increment(&mut counter), Ok(i + 1));
        if i == 2 {
            assert_eq!(w.write_failed(), WorkerError::WriteFailed { index: 2 });
        } else {
            assert!(w.append(&mut log).is_ok());
        }
        let decision = coordinator.record_join(i, w.outcome());
        if i == 2 {
            assert_eq!(decision, JoinDecision::Abort);
        } else {
            assert_eq!(decision, JoinDecision::Continue);
        }
    }
    assert_eq!(counter.value(), 3);
    assert_eq!(log.line_count(), 2);
    match coordinator.report(&counter, &log) {
        Err(RunError::WorkerFailure { error }) => {
            assert_eq!(error, WorkerError::WriteFailed { index: 2 })
        }
        _ => panic!("the failure should be reported"),
    }
}

#[test]
fn final_counter_equals_worker_count() {
    for n in 0..12usize {
        let summary = run_in_order(&table(vec![1; n], 3), None);
        let report = summary.result.ok().unwrap();
        assert_eq!(report.final_counter, n);
        assert_eq!(summary.counter.value(), n);
    }
}

#[test]
fn log_has_one_line_per_worker() {
    for n in 0..9usize {
        let summary = run_in_order(&table(vec![2; n], 2), None);
        let bytes = summary.log.bytes();
        assert_eq!(bytes.iter().filter(|b| **b == b'\n').count(), n);
        assert_eq!(lines(&bytes).len(), n);
    }
}

#[test]
fn log_records_tile_contents() {
    let t = table(vec![3, 0, 7, 12, 1, 9, 10, 0, 4, 5, 6, 2], 12);
    let summary = run_in_order(&t, None);
    let bytes = summary.log.bytes();
    let mut offset = 0usize;
    for line in lines(&bytes) {
        let len = line.len() + 1;
        assert_eq!(&bytes[offset..offset + len - 1], line.as_bytes());
        assert_eq!(bytes[offset + len - 1], b'\n');
        offset += len;
    }
    assert_eq!(offset, bytes.len());
}

#[test]
fn increments_take_consecutive_values() {
    let mut counter = SharedCounter::new(4);
    let order = [2usize, 0, 3, 1];
    for (k, w) in order.iter().enumerate() {
        assert_eq!(counter.increment(*w), Ok(k + 1));
    }
    assert_eq!(counter.history(), vec![2, 0, 3, 1]);
    assert!(counter.is_complete());
}

#[test]
fn counter_refuses_unknown_and_repeated_workers() {
    let mut counter = SharedCounter::new(2);
    assert_eq!(counter.increment(2), Err(WorkerError::InvalidIndex { index: 2 }));
    assert_eq!(counter.increment(1), Ok(1));
    assert_eq!(counter.increment(1), Err(WorkerError::AlreadyRecorded { index: 1 }));
    assert_eq!(counter.value(), 1);
    assert!(counter.has_incremented(1));
    assert!(!counter.has_incremented(0));
    assert!(!counter.is_complete());
    assert_eq!(counter.worker_count(), 2);
}

#[test]
fn log_refuses_bad_appends() {
    let mut log = SharedLog::new(2);
    let line = b"worker 0, counter=1, delay=0s\n".to_vec();
    assert_eq!(log.append(5, &line), Err(WorkerError::InvalidIndex { index: 5 }));
    assert_eq!(log.append(0, &b"no newline".to_vec()), Err(WorkerError::MalformedLine { index: 0 }));
    assert_eq!(log.append(0, &b"two\nlines\n".to_vec()), Err(WorkerError::MalformedLine { index: 0 }));
    assert_eq!(log.append(0, &Vec::new()), Err(WorkerError::MalformedLine { index: 0 }));
    assert_eq!(log.next_offset(), 0);
    assert_eq!(log.append(0, &line), Ok(0));
    assert_eq!(log.append(0, &line), Err(WorkerError::AlreadyRecorded { index: 0 }));
    assert_eq!(log.next_offset(), line.len());
    assert_eq!(log.append(1, &line), Ok(line.len()));
    assert_eq!(log.line_count(), 2);
    assert!(log.is_complete());
    assert_eq!(log.worker_count(), 2);
}

#[test]
fn worker_steps_out_of_order_are_refused() {
    let t = table(vec![4], 4);
    let mut counter = SharedCounter::new(1);
    let mut log = SharedLog::new(1);
    let mut w = Worker::new(0);
    assert_eq!(w.wake(), Err(WorkerError::OutOfOrder { index: 0 }));
    assert_eq!(w.increment(&mut counter), Err(WorkerError::OutOfOrder { index: 0 }));
    assert_eq!(w.append(&mut log), Err(WorkerError::OutOfOrder { index: 0 }));
    assert_eq!(w.outcome(), Err(WorkerError::OutOfOrder { index: 0 }));
    assert!(w.line().is_none());
    assert_eq!(w.begin(&t), Ok(4));
    assert_eq!(w.phase, WorkerPhase::Sleeping { delay: 4 });
    assert_eq!(w.begin(&t), Err(WorkerError::OutOfOrder { index: 0 }));
    assert_eq!(w.wake(), Ok(()));
    assert_eq!(w.increment(&mut counter), Ok(1));
    assert_eq!(w.line().unwrap(), b"worker 0, counter=1, delay=4s\n".to_vec());
    assert_eq!(w.append(&mut log), Ok(0));
    assert_eq!(w.phase, WorkerPhase::Done { counter: 1, offset: 0 });
    assert_eq!(w.outcome(), Ok(()));
    assert_eq!(counter.value(), 1);
}

#[test]
fn worker_without_table_entry_fails() {
    let t = table(vec![1, 1], 1);
    let mut w = Worker::new(2);
    assert_eq!(w.begin(&t), Err(WorkerError::InvalidIndex { index: 2 }));
    assert_eq!(w.outcome(), Err(WorkerError::InvalidIndex { index: 2 }));
}

#[test]
fn worker_fails_when_counter_already_has_it() {
    let t = table(vec![0], 0);
    let mut counter = SharedCounter::new(1);
    assert_eq!(counter.increment(0), Ok(1));
    let mut w = Worker::new(0);
    assert_eq!(w.begin(&t), Ok(0));
    assert_eq!(w.wake(), Ok(()));
    assert_eq!(w.increment(&mut counter), Err(WorkerError::AlreadyRecorded { index: 0 }));
    assert_eq!(w.outcome(), Err(WorkerError::AlreadyRecorded { index: 0 }));
    assert_eq!(counter.value(), 1);
}

#[test]
fn incomplete_run_is_reported() {
    let counter = SharedCounter::new(2);
    let log = SharedLog::new(2);
    let mut coordinator = Coordinator::new(2);
    assert_eq!(coordinator.record_join(0, Ok(())), JoinDecision::Continue);
    assert_eq!(coordinator.join_order(), vec![0]);
    match coordinator.report(&counter, &log) {
        Err(RunError::Incomplete) => {}
        _ => panic!("nothing was incremented"),
    }
}

#[test]
fn first_failure_is_kept() {
    let mut coordinator = Coordinator::new(3);
    assert_eq!(
        coordinator.record_join(1, Err(WorkerError::Crashed { index: 1 })),
        JoinDecision::Abort
    );
    assert_eq!(
        coordinator.record_join(0, Err(WorkerError::WriteFailed { index: 0 })),
        JoinDecision::Abort
    );
    let counter = SharedCounter::new(3);
    let log = SharedLog::new(3);
    match coordinator.report(&counter, &log) {
        Err(RunError::WorkerFailure { error }) => {
            assert_eq!(error, WorkerError::Crashed { index: 1 })
        }
        _ => panic!("the first failure should be reported"),
    }
}
