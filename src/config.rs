use vstd::prelude::*;
use crate::error::ConfigError;

verus! {

/// The number of workers when none is given.
pub const DEFAULT_WORKER_COUNT: usize = 20;

/// The largest delay, in seconds, when none is given.
pub const DEFAULT_MAX_DELAY_SECONDS: u64 = 10;

/// The startup options of a run, checked.
pub struct RunConfig {
    pub worker_count: usize,
    pub max_delay_seconds: u64,
    pub log_path: String,
}

impl RunConfig {
    /// The options used when none is given, logging to `log_path`.
    pub fn with_defaults(log_path: String) -> (r: RunConfig)
        ensures
            r.worker_count == DEFAULT_WORKER_COUNT,
            r.max_delay_seconds == DEFAULT_MAX_DELAY_SECONDS,
            r.log_path@ == log_path@,
    {
        RunConfig { worker_count: DEFAULT_WORKER_COUNT, max_delay_seconds: DEFAULT_MAX_DELAY_SECONDS, log_path }
    }

    /// Checks the options as given: neither number may be negative, and
    /// the worker count must fit an index.
    pub fn validate(worker_count: i64, max_delay_seconds: i64, log_path: String) -> (r: Result<RunConfig, ConfigError>)
        ensures
            worker_count < 0 ==> r == Err::<RunConfig, ConfigError>(ConfigError::NegativeWorkerCount),
            worker_count >= 0 && worker_count > usize::MAX ==> r == Err::<RunConfig, ConfigError>(
                ConfigError::WorkerCountTooLarge,
            ),
            0 <= worker_count <= usize::MAX && max_delay_seconds < 0 ==> r == Err::<RunConfig, ConfigError>(
                ConfigError::NegativeMaxDelay,
            ),
            r is Ok <==> (0 <= worker_count <= usize::MAX && max_delay_seconds >= 0),
            r matches Ok(c) ==> c.worker_count == worker_count && c.max_delay_seconds == max_delay_seconds
                && c.log_path@ == log_path@,
    {
        if worker_count < 0 {
            return Err(ConfigError::NegativeWorkerCount);
        }
        if worker_count as u64 > usize::MAX as u64 {
            return Err(ConfigError::WorkerCountTooLarge);
        }
        if max_delay_seconds < 0 {
            return Err(ConfigError::NegativeMaxDelay);
        }
        Ok(RunConfig { worker_count: worker_count as usize, max_delay_seconds: max_delay_seconds as u64, log_path })
    }
}

} // verus!
