use vstd::prelude::*;

verus! {

/// Rejected startup options.
#[derive(Debug, Clone, Copy, PartialEq, Eq, Structural)]
pub enum ConfigError {
    /// The worker count was below zero.
    NegativeWorkerCount,
    /// The worker count does not fit this machine's index type.
    WorkerCountTooLarge,
    /// The largest delay was below zero.
    NegativeMaxDelay,
    /// A drawn delay exceeded the largest delay allowed.
    DelayOutOfRange { index: usize },
}

/// Why a single worker could not finish.
#[derive(Debug, Clone, Copy, PartialEq, Eq, Structural)]
pub enum WorkerError {
    /// The delay table holds no entry for this worker.
    InvalidIndex { index: usize },
    /// The shared counter or log already holds this worker's step.
    AlreadyRecorded { index: usize },
    /// The step was asked for in the wrong phase of the worker.
    OutOfOrder { index: usize },
    /// The text handed to the log was not a single line.
    MalformedLine { index: usize },
    /// Writing the worker's line to the log failed.
    WriteFailed { index: usize },
    /// The worker's thread did not finish normally.
    Crashed { index: usize },
}

/// Why a run as a whole failed.
#[derive(Debug, Clone, Copy, PartialEq, Eq, Structural)]
pub enum RunError {
    /// A worker failed; the run was aborted at its join.
    WorkerFailure { error: WorkerError },
    /// Not every worker has been joined, or not every one left its
    /// increment and its line.
    Incomplete,
}

} // verus!
