use rand::rngs::StdRng;
use rand::{Rng, SeedableRng};
use worker_sim::config::{RunConfig, DEFAULT_MAX_DELAY_SECONDS, DEFAULT_WORKER_COUNT};
use worker_sim::delay::DelayTable;
use worker_sim::error::ConfigError;
use worker_sim::line::{check_line, format_line};

fn seeded_draws(seed: u64, n: usize, max_delay: u64) -> Vec<u64> {
    let mut rng = StdRng::seed_from_u64(seed);
    (0..n).map(|_| rng.gen_range(0..=max_delay)).collect()
}

#[test]
fn same_seed_builds_same_table() {
    let first = DelayTable::from_draws(seeded_draws(42, 20, 10), 10).unwrap();
    let second = DelayTable::from_draws(seeded_draws(42, 20, 10), 10).unwrap();
    assert_eq!(first.delays(), second.delays());
    assert_eq!(first.len(), 20);
}

#[test]
fn draws_above_max_are_rejected() {
    assert_eq!(
        DelayTable::from_draws(vec![1, 5, 2, 9], 4).err(),
        Some(ConfigError::DelayOutOfRange { index: 1 })
    );
    let t = DelayTable::from_draws(vec![1, 4, 0], 4).unwrap();
    assert_eq!(t.delay_of(1), Some(4));
    assert_eq!(t.delay_of(3), None);
    assert_eq!(t.max_delay(), 4);
}

#[test]
fn random_table_stays_in_range() {
    let t = DelayTable::build(200, 1000);
    assert_eq!(t.len(), 200);
    let delays = t.delays();
    assert!(delays.iter().all(|d| *d <= 1000));
    assert!(delays.iter().any(|d| *d != 1000));
    let zero = DelayTable::build(5, 0);
    assert_eq!(zero.delays(), vec![0; 5]);
    assert_eq!(DelayTable::build(0, 3).len(), 0);
}

#[test]
fn options_are_checked() {
    assert_eq!(RunConfig::validate(-1, 5, "foo.txt".to_string()).err(), Some(ConfigError::NegativeWorkerCount));
    assert_eq!(RunConfig::validate(3, -2, "foo.txt".to_string()).err(), Some(ConfigError::NegativeMaxDelay));
    let c = RunConfig::validate(0, 0, "out.log".to_string()).ok().unwrap();
    assert_eq!(c.worker_count, 0);
    assert_eq!(c.max_delay_seconds, 0);
    assert_eq!(c.log_path, "out.log");
    let d = RunConfig::with_defaults("foo.txt".to_string());
    assert_eq!(d.worker_count, DEFAULT_WORKER_COUNT);
    assert_eq!(d.max_delay_seconds, DEFAULT_MAX_DELAY_SECONDS);
}

#[test]
fn record_text_is_exact() {
    assert_eq!(format_line(0, 1, 0), b"worker 0, counter=1, delay=0s\n".to_vec());
    assert_eq!(
        format_line(12, 345, 6789),
        b"worker 12, counter=345, delay=6789s\n".to_vec()
    );
    assert_eq!(
        format_line(10, 100, u64::MAX),
        b"worker 10, counter=100, delay=18446744073709551615s\n".to_vec()
    );
}

#[test]
fn single_lines_are_recognised() {
    assert!(check_line(&b"x\n".to_vec()));
    assert!(check_line(&b"\n".to_vec()));
    assert!(!check_line(&b"x".to_vec()));
    assert!(!check_line(&b"a\nb\n".to_vec()));
    assert!(!check_line(&Vec::new()));
}
