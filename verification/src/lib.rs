//! A harness for stress runs of a machine's processor, memory and storage:
//! the lifecycle of a run, the counting and sampling of what its workers do,
//! and the names and rows of the logs it leaves, written and read back.
//!
//! The library holds the rules; threads, clocks and files are its caller's.
//! Times are handed in as numbers, counters as they were read, and a log as
//! the lines that were found in it.
pub mod analyzer;
pub mod config;
pub mod history;
pub mod log_name;
pub mod log_rows;
pub mod monitor;
pub mod run;
pub mod storage;
pub mod text;
pub mod timestamp;
pub mod worker;
pub mod workload;
