//! Batch driver for the `vsearch` sequence-analysis tool.
//!
//! The crate turns a request (an operation name, input files and a few
//! parameters) into one job per input file and decides, step by step, how a
//! pool of bounded size works through those jobs, stopping the batch at the
//! first failure. Every function here is verified against its contract; the
//! program around the library does the file-system access and starts the
//! processes.

pub mod catalog;
pub mod config;
pub mod error;
pub mod jobs;
pub mod number;
pub mod path;
pub mod plan;
pub mod resolver;
pub mod runner;
pub mod text;
pub mod threshold;

pub use crate::catalog::validate_command;
pub use crate::config::{get_args, Config, ConfigView, RawArguments};
pub use crate::error::{BatchError, BatchErrorView, Setting};
pub use crate::jobs::{make_jobs, Batch, JobSpec, JobSpecView};
pub use crate::path::basename;
pub use crate::plan::plan_batch;
pub use crate::resolver::{find_files, Entry, Probe};
pub use crate::runner::{
    Action, BatchState, Completion, FailureCause, JobState, RunResult, Runner, RunnerView,
    DEFAULT_CONCURRENCY,
};
