//! A small concurrent worker run, modelled as verified state: a table of
//! per-worker delays, a counter that each worker bumps once, an append-only
//! log whose records tile its bytes, the per-worker state machine, and the
//! coordinator that retires workers and reports the outcome.
pub mod config;
pub mod coordinator;
pub mod counter;
pub mod cover;
pub mod delay;
pub mod error;
pub mod line;
pub mod log;
pub mod run;
pub mod version;
pub mod worker;
