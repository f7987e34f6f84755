//! The configuration of one invocation, and how it is made from what the
//! command line held.

use crate::error::{BatchError, BatchErrorView, Setting};
use crate::number::{parse_u32, parsed_u32};
use crate::path::{join_path, joined_path};
use crate::text::{option_text, texts, trim, trimmed};
use vstd::prelude::*;

verus! {

/// The number of threads that each job gets when none is asked for.
pub const DEFAULT_THREADS: u32 = 12;

/// The largest number of threads that a job can be given.
pub const MAX_THREADS: u32 = 63;

/// Everything that one invocation is told: which operation to run on which
/// inputs, with which parameters, and where the results go.
#[derive(Debug, Clone, PartialEq, Eq)]
pub struct Config {
    /// The name of the operation.
    pub command: String,
    /// The input files and directories.
    pub query: Vec<String>,
    /// A file of centroids that accompanies the inputs.
    pub centroids: Option<String>,
    /// A database file that accompanies the inputs.
    pub db_file: Option<String>,
    /// The similarity threshold, as decimal text.
    pub id_value: Option<String>,
    /// The offset of the quality scores in the inputs.
    pub fastq_ascii: Option<u32>,
    /// The directory that holds the tool.
    pub bin_dir: Option<String>,
    /// The number of threads of each job.
    pub num_threads: Option<u32>,
    /// The directory that receives one output file per input file.
    pub out_dir: String,
}

/// What a `Config` holds, as plain mathematical values.
pub struct ConfigView {
    pub command: Seq<char>,
    pub query: Seq<Seq<char>>,
    pub centroids: Option<Seq<char>>,
    pub db_file: Option<Seq<char>>,
    pub id_value: Option<Seq<char>>,
    pub fastq_ascii: Option<u32>,
    pub bin_dir: Option<Seq<char>>,
    pub num_threads: Option<u32>,
    pub out_dir: Seq<char>,
}

impl View for Config {
    type V = ConfigView;

    open spec fn view(&self) -> ConfigView {
        ConfigView {
            command: self.command@,
            query: texts(self.query@),
            centroids: option_text(self.centroids),
            db_file: option_text(self.db_file),
            id_value: option_text(self.id_value),
            fastq_ascii: self.fastq_ascii,
            bin_dir: option_text(self.bin_dir),
            num_threads: self.num_threads,
            out_dir: self.out_dir@,
        }
    }
}

/// The values of the command line, each as the text that was typed.
#[derive(Debug, Clone, PartialEq, Eq)]
pub struct RawArguments {
    pub command: String,
    pub query: Vec<String>,
    pub centroids: Option<String>,
    pub db_file: Option<String>,
    pub out_dir: Option<String>,
    pub id_value: Option<String>,
    pub fastq_ascii: Option<String>,
    pub bin_dir: Option<String>,
    pub num_threads: Option<String>,
}

/// `n` is a number of threads that a job can be given.
pub open spec fn valid_thread_count(n: u32) -> bool {
    1 <= n <= MAX_THREADS
}

/// The number of threads that the text of the command line asks for: the
/// default when it is silent, nothing when it asks for what cannot be given.
pub open spec fn thread_count_of(text: Option<Seq<char>>) -> Option<u32> {
    match text {
        None => Some(DEFAULT_THREADS),
        Some(t) => match parsed_u32(trimmed(t)) {
            Some(n) => if valid_thread_count(n) {
                Some(n)
            } else {
                None
            },
            None => None,
        },
    }
}

/// The offset of the quality scores that the text of the command line gives;
/// text that writes no number counts as silence.
pub open spec fn quality_offset_of(text: Option<Seq<char>>) -> Option<u32> {
    match text {
        None => None,
        Some(t) => parsed_u32(trimmed(t)),
    }
}

/// The similarity threshold that the text of the command line gives.
pub open spec fn threshold_of(text: Option<Seq<char>>) -> Option<Seq<char>> {
    match text {
        None => None,
        Some(t) => Some(trimmed(t)),
    }
}

/// The output directory: the one asked for, or `vsearch-out` under the
/// working directory.
pub open spec fn out_dir_of(text: Option<Seq<char>>, cwd: Seq<char>) -> Seq<char> {
    match text {
        None => joined_path(cwd, "vsearch-out"@),
        Some(t) => t,
    }
}

/// The configuration that the values of the command line describe, when the
/// thread count is `threads`.
pub open spec fn config_of(arguments: RawArguments, cwd: Seq<char>, threads: u32) -> ConfigView {
    ConfigView {
        command: arguments.command@,
        query: texts(arguments.query@),
        centroids: option_text(arguments.centroids),
        db_file: option_text(arguments.db_file),
        id_value: threshold_of(option_text(arguments.id_value)),
        fastq_ascii: quality_offset_of(option_text(arguments.fastq_ascii)),
        bin_dir: option_text(arguments.bin_dir),
        num_threads: Some(threads),
        out_dir: out_dir_of(option_text(arguments.out_dir), cwd),
    }
}

/// Makes the configuration from the values of the command line. `cwd` is the
/// working directory, under which the output directory is placed when none is
/// asked for. A thread count that is no number from 1 to 63 is refused.
pub fn get_args(arguments: RawArguments, cwd: &str) -> (r: Result<Config, BatchError>)
    ensures
        match thread_count_of(option_text(arguments.num_threads)) {
            Some(threads) => r matches Ok(config) && config@ == config_of(
                arguments,
                cwd@,
                threads,
            ),
            None => r matches Err(e) && e@ == (BatchErrorView::ConfigError {
                setting: Setting::ThreadCount,
            }),
        },
{
    let threads: u32 = match &arguments.num_threads {
        None => DEFAULT_THREADS,
        Some(text) => match parse_u32(trim(text.as_str())) {
            Some(n) => {
                if n < 1 || n > MAX_THREADS {
                    return Err(BatchError::ConfigError { setting: Setting::ThreadCount });
                }
                n
            },
            None => {
                return Err(BatchError::ConfigError { setting: Setting::ThreadCount });
            },
        },
    };
    let id_value: Option<String> = match &arguments.id_value {
        None => None,
        Some(text) => Some(String::from_str(trim(text.as_str()))),
    };
    let fastq_ascii: Option<u32> = match &arguments.fastq_ascii {
        None => None,
        Some(text) => parse_u32(trim(text.as_str())),
    };
    let out_dir: String = match &arguments.out_dir {
        None => join_path(cwd, "vsearch-out"),
        Some(text) => text.clone(),
    };
    let ghost expected = config_of(arguments, cwd@, threads);
    let config = Config {
        command: arguments.command,
        query: arguments.query,
        centroids: arguments.centroids,
        db_file: arguments.db_file,
        id_value,
        fastq_ascii,
        bin_dir: arguments.bin_dir,
        num_threads: Some(threads),
        out_dir,
    };
    assert(config@ == expected);
    Ok(config)
}

} // verus!
