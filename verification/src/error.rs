//! The errors of a batch, their mathematical view and their messages.

use crate::catalog::{catalog_listing, is_operation, listing, listing_shows_every_operation};
use crate::text::{
    contains_text,
    contains_text_within,
    decimal,
    decimal_string,
    join,
    join_strings,
    texts,
};
use vstd::prelude::*;

verus! {

/// A setting of the configuration that has a range of its own.
#[derive(Debug, Clone, Copy, PartialEq, Eq, Structural)]
pub enum Setting {
    /// The number of threads handed to each job: 1 to 63.
    ThreadCount,
    /// The number of jobs that may run at once: at least 1.
    ConcurrencyLimit,
}

/// Everything that ends an invocation early.
#[derive(Debug, PartialEq, Eq)]
pub enum BatchError {
    /// An input path does not exist or cannot be read.
    NotFound { path: String },
    /// The input paths hold no regular file.
    NoInputFiles { paths: Vec<String> },
    /// The operation is not in the catalog.
    UnknownOperation { name: String },
    /// The operation needs a similarity threshold and none was given.
    MissingRequiredParameter { operation: String },
    /// The similarity threshold is not a decimal number strictly between 0 and 1.
    InvalidParameter { value: String },
    /// An input path has no final component to name the output file after.
    InvalidFileName { path: String },
    /// The job at `index` could not be started.
    SpawnFailure { index: usize },
    /// The job at `index` ran and failed.
    JobFailure { index: usize },
    /// A setting is outside its range.
    ConfigError { setting: Setting },
}

/// What a `BatchError` holds, as plain mathematical values.
pub enum BatchErrorView {
    NotFound { path: Seq<char> },
    NoInputFiles { paths: Seq<Seq<char>> },
    UnknownOperation { name: Seq<char> },
    MissingRequiredParameter { operation: Seq<char> },
    InvalidParameter { value: Seq<char> },
    InvalidFileName { path: Seq<char> },
    SpawnFailure { index: nat },
    JobFailure { index: nat },
    ConfigError { setting: Setting },
}

impl View for BatchError {
    type V = BatchErrorView;

    open spec fn view(&self) -> BatchErrorView {
        match *self {
            BatchError::NotFound { path } => BatchErrorView::NotFound { path: path@ },
            BatchError::NoInputFiles { paths } => BatchErrorView::NoInputFiles {
                paths: texts(paths@),
            },
            BatchError::UnknownOperation { name } => BatchErrorView::UnknownOperation {
                name: name@,
            },
            BatchError::MissingRequiredParameter {
                operation,
            } => BatchErrorView::MissingRequiredParameter { operation: operation@ },
            BatchError::InvalidParameter { value } => BatchErrorView::InvalidParameter {
                value: value@,
            },
            BatchError::InvalidFileName { path } => BatchErrorView::InvalidFileName {
                path: path@,
            },
            BatchError::SpawnFailure { index } => BatchErrorView::SpawnFailure {
                index: index as nat,
            },
            BatchError::JobFailure { index } => BatchErrorView::JobFailure { index: index as nat },
            BatchError::ConfigError { setting } => BatchErrorView::ConfigError { setting },
        }
    }
}

/// The message of a setting that is outside its range.
pub open spec fn setting_text(setting: Setting) -> Seq<char> {
    match setting {
        Setting::ThreadCount => "Bad --num_threads, must be between 1 and 63"@,
        Setting::ConcurrencyLimit => "Bad concurrency limit, must be at least 1"@,
    }
}

/// The message shown to the user for each error.
pub open spec fn message_text(error: BatchErrorView) -> Seq<char> {
    match error {
        BatchErrorView::NotFound { path } => "Cannot read \""@ + path + "\""@,
        BatchErrorView::NoInputFiles { paths } => "No input files can be found in "@ + join(
            paths,
            ", "@,
        ),
        BatchErrorView::UnknownOperation { name } => "--command \""@ + name
            + "\" invalid, choose from:\n"@ + catalog_listing(),
        BatchErrorView::MissingRequiredParameter { operation } => "--"@ + operation
            + " requires --id value (0 < id < 1)"@,
        BatchErrorView::InvalidParameter { value } => "Bad --id ("@ + value
            + "), must be between 0 and 1"@,
        BatchErrorView::InvalidFileName { path } => "Cannot get basename from file \""@ + path
            + "\""@,
        BatchErrorView::SpawnFailure { index } => "Failed to start job "@ + decimal(index),
        BatchErrorView::JobFailure { index } => "Job "@ + decimal(index) + " failed"@,
        BatchErrorView::ConfigError { setting } => setting_text(setting),
    }
}

/// The message for an unknown operation names every operation of the catalog.
pub proof fn unknown_operation_message_lists_catalog(name: Seq<char>, operation: Seq<char>)
    requires
        is_operation(operation),
    ensures
        contains_text(message_text(BatchErrorView::UnknownOperation { name }), operation),
{
    listing_shows_every_operation(operation);
    let head = "--command \""@ + name + "\" invalid, choose from:\n"@;
    contains_text_within(head, catalog_listing(), Seq::empty(), operation);
    assert(head + catalog_listing() + Seq::<char>::empty() =~= message_text(
        BatchErrorView::UnknownOperation { name },
    ));
}

impl BatchError {
    /// The message shown to the user.
    pub fn message(&self) -> (text: String)
        ensures
            text@ == message_text(self@),
    {
        match self {
            BatchError::NotFound { path } => {
                let mut text = String::from_str("Cannot read \"");
                text.append(path.as_str());
                text.append("\"");
                text
            },
            BatchError::NoInputFiles { paths } => {
                let mut text = String::from_str("No input files can be found in ");
                let joined = join_strings(paths, ", ");
                text.append(joined.as_str());
                text
            },
            BatchError::UnknownOperation { name } => {
                let mut text = String::from_str("--command \"");
                text.append(name.as_str());
                text.append("\" invalid, choose from:\n");
                let lines = listing();
                text.append(lines.as_str());
                text
            },
            BatchError::MissingRequiredParameter { operation } => {
                let mut text = String::from_str("--");
                text.append(operation.as_str());
                text.append(" requires --id value (0 < id < 1)");
                text
            },
            BatchError::InvalidParameter { value } => {
                let mut text = String::from_str("Bad --id (");
                text.append(value.as_str());
                text.append("), must be between 0 and 1");
                text
            },
            BatchError::InvalidFileName { path } => {
                let mut text = String::from_str("Cannot get basename from file \"");
                text.append(path.as_str());
                text.append("\"");
                text
            },
            BatchError::SpawnFailure { index } => {
                let mut text = String::from_str("Failed to start job ");
                let number = decimal_string(*index as u64);
                text.append(number.as_str());
                text
            },
            BatchError::JobFailure { index } => {
                let mut text = String::from_str("Job ");
                let number = decimal_string(*index as u64);
                text.append(number.as_str());
                text.append(" failed");
                text
            },
            BatchError::ConfigError { setting } => {
                match setting {
                    Setting::ThreadCount => String::from_str(
                        "Bad --num_threads, must be between 1 and 63",
                    ),
                    Setting::ConcurrencyLimit => String::from_str(
                        "Bad concurrency limit, must be at least 1",
                    ),
                }
            },
        }
    }
}

} // verus!
