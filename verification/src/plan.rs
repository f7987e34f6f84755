//! From a request and what was found under its input paths to the batch.

use crate::config::{Config, ConfigView};
use crate::error::{BatchError, BatchErrorView};
use crate::jobs::{batch_for, batch_view, make_jobs, JobSpec, JobSpecView};
use crate::resolver::{find_files, resolution, Entry};
use vstd::prelude::*;

verus! {

/// The batch of an invocation: the input files are resolved first, and the
/// jobs are built for the files found. An error of the resolution comes
/// before any error of the request.
pub open spec fn plan_for(config: ConfigView, inputs: Seq<Entry>, recursive: bool) -> Result<
    Seq<JobSpecView>,
    BatchErrorView,
> {
    match resolution(inputs, recursive) {
        Ok(files) => batch_for(config, files),
        Err(error) => Err(error),
    }
}

/// Resolves the input files from `inputs`, which tell what was found under
/// each input path, and builds the batch for them.
pub fn plan_batch(config: &Config, inputs: &Vec<Entry>, recursive: bool) -> (r: Result<
    Vec<JobSpec>,
    BatchError,
>)
    ensures
        batch_view(r) == plan_for(config@, inputs@, recursive),
{
    match find_files(inputs, recursive) {
        Ok(files) => make_jobs(config, &files),
        Err(error) => Err(error),
    }
}

} // verus!
