//! Jobs: one invocation of the tool for each input file.

use crate::catalog::{
    is_operation,
    needs_threshold,
    operation_needs_threshold,
    threshold_operations_are_known,
    validate_command,
};
use crate::config::{valid_thread_count, Config, ConfigView, MAX_THREADS};
use crate::error::{BatchError, BatchErrorView, Setting};
use crate::path::{
    basename,
    final_component,
    final_component_is_last,
    has_base_name,
    join_path,
    joined_path,
    joined_path_ends_in_name,
};
use crate::text::{decimal, decimal_string, join, join_strings, option_text, texts};
use crate::threshold::{is_threshold, threshold_text, validate_threshold};
use vstd::prelude::*;

verus! {

/// One unit of work: the tool to start and the arguments to start it with.
/// A job is complete when it is made; nothing is checked again when it runs.
#[derive(Debug, Clone, PartialEq, Eq)]
pub struct JobSpec {
    executable: String,
    arguments: Vec<String>,
}

/// What a `JobSpec` holds, as plain mathematical values.
pub struct JobSpecView {
    pub executable: Seq<char>,
    pub arguments: Seq<Seq<char>>,
}

impl View for JobSpec {
    type V = JobSpecView;

    closed spec fn view(&self) -> JobSpecView {
        JobSpecView { executable: self.executable@, arguments: texts(self.arguments@) }
    }
}

impl JobSpec {
    /// A job that starts `executable` with `arguments`.
    pub fn new(executable: String, arguments: Vec<String>) -> (job: JobSpec)
        ensures
            job@ == (JobSpecView { executable: executable@, arguments: texts(arguments@) }),
    {
        JobSpec { executable, arguments }
    }

    /// The path of the tool.
    pub fn executable(&self) -> (executable: &String)
        ensures
            executable@ == self@.executable,
    {
        &self.executable
    }

    /// The arguments, in the order in which the tool gets them.
    pub fn arguments(&self) -> (arguments: &Vec<String>)
        ensures
            texts(arguments@) == self@.arguments,
    {
        &self.arguments
    }

    /// The job as one line of text: the tool and its arguments, separated by
    /// single spaces.
    pub fn command_line(&self) -> (line: String)
        ensures
            line@ == command_line_text(self@),
    {
        let mut line = self.executable.clone();
        if self.arguments.len() > 0 {
            line.append(" ");
            let joined = join_strings(&self.arguments, " ");
            line.append(joined.as_str());
        }
        line
    }
}

/// The jobs of one invocation, in the order of the input files.
pub type Batch = Vec<JobSpec>;

/// A job as one line of text.
pub open spec fn command_line_text(job: JobSpecView) -> Seq<char> {
    if job.arguments.len() == 0 {
        job.executable
    } else {
        job.executable + " "@ + join(job.arguments, " "@)
    }
}

/// The views of a batch of jobs.
pub open spec fn job_views(jobs: Seq<JobSpec>) -> Seq<JobSpecView> {
    jobs.map_values(|job: JobSpec| job@)
}

/// The path of the tool: its name under the directory that is said to hold
/// it, or its bare name, which is then looked up when the job starts.
pub open spec fn executable_path(bin_dir: Option<Seq<char>>) -> Seq<char> {
    match bin_dir {
        Some(dir) => joined_path(dir, "vsearch"@),
        None => "vsearch"@,
    }
}

/// The arguments that select the similarity threshold, when one is given.
pub open spec fn threshold_arguments(id_value: Option<Seq<char>>) -> Seq<Seq<char>> {
    match id_value {
        Some(text) => seq!["--id"@, threshold_text(text)],
        None => Seq::empty(),
    }
}

/// The arguments that select the number of threads, when one is given.
pub open spec fn thread_arguments(num_threads: Option<u32>) -> Seq<Seq<char>> {
    match num_threads {
        Some(n) => seq!["--threads"@, decimal(n as nat)],
        None => Seq::empty(),
    }
}

/// The path of the file that receives the output for the input `file`.
pub open spec fn output_path(out_dir: Seq<char>, file: Seq<char>) -> Seq<char> {
    joined_path(out_dir, final_component(file))
}

/// The arguments of the job for `file`: the operation and its input, the
/// threshold, the output file, the number of threads.
pub open spec fn job_arguments(config: ConfigView, file: Seq<char>) -> Seq<Seq<char>> {
    seq!["--"@ + config.command, file] + threshold_arguments(config.id_value) + seq![
        "--alnout"@,
        output_path(config.out_dir, file),
    ] + thread_arguments(config.num_threads)
}

/// The job for `file`.
pub open spec fn job_for(config: ConfigView, file: Seq<char>) -> JobSpecView {
    JobSpecView {
        executable: executable_path(config.bin_dir),
        arguments: job_arguments(config, file),
    }
}

/// What is wrong with the request itself, whatever the input files are:
/// first the operation, then a threshold that is missing, then one that is
/// out of range, then the number of threads.
pub open spec fn request_error(config: ConfigView) -> Option<BatchErrorView> {
    if !is_operation(config.command) {
        Some(BatchErrorView::UnknownOperation { name: config.command })
    } else if needs_threshold(config.command) && config.id_value is None {
        Some(BatchErrorView::MissingRequiredParameter { operation: config.command })
    } else if config.id_value is Some && !is_threshold(config.id_value->0) {
        Some(BatchErrorView::InvalidParameter { value: config.id_value->0 })
    } else if config.num_threads is Some && !valid_thread_count(config.num_threads->0) {
        Some(BatchErrorView::ConfigError { setting: Setting::ThreadCount })
    } else {
        None
    }
}

/// Every file has a final component to name its output file after.
pub open spec fn all_named(files: Seq<Seq<char>>) -> bool {
    forall|i: int| 0 <= i < files.len() ==> has_base_name(#[trigger] files[i])
}

/// `i` is the position of the first file without such a component.
pub open spec fn is_first_unnamed(files: Seq<Seq<char>>, i: int) -> bool {
    &&& 0 <= i < files.len()
    &&& !has_base_name(files[i])
    &&& forall|j: int| 0 <= j < i ==> has_base_name(#[trigger] files[j])
}

/// The position of the first file without such a component.
pub open spec fn first_unnamed(files: Seq<Seq<char>>) -> int {
    choose|i: int| is_first_unnamed(files, i)
}

/// The batch for a request: one job per file, in the order of the files; or
/// the error of the request; or that of the first file that cannot name an
/// output file.
pub open spec fn batch_for(config: ConfigView, files: Seq<Seq<char>>) -> Result<
    Seq<JobSpecView>,
    BatchErrorView,
> {
    match request_error(config) {
        Some(error) => Err(error),
        None => if all_named(files) {
            Ok(files.map_values(|file: Seq<char>| job_for(config, file)))
        } else {
            Err(BatchErrorView::InvalidFileName { path: files[first_unnamed(files)] })
        },
    }
}

/// The outcome of building a batch, as plain mathematical values.
pub open spec fn batch_view(r: Result<Vec<JobSpec>, BatchError>) -> Result<
    Seq<JobSpecView>,
    BatchErrorView,
> {
    match r {
        Ok(jobs) => Ok(job_views(jobs@)),
        Err(error) => Err(error@),
    }
}

/// Only one position is that of the first file without a final component.
pub proof fn first_unnamed_is(files: Seq<Seq<char>>, i: int)
    requires
        is_first_unnamed(files, i),
    ensures
        first_unnamed(files) == i,
        !all_named(files),
{
    let chosen = first_unnamed(files);
    assert(is_first_unnamed(files, chosen));
    if chosen < i {
        assert(has_base_name(files[chosen]));
    }
    if i < chosen {
        assert(has_base_name(files[i]));
    }
}

/// The output file of an input file has the name of that file.
pub proof fn output_keeps_file_name(out_dir: Seq<char>, file: Seq<char>)
    ensures
        final_component(output_path(out_dir, file)) == final_component(file),
{
    final_component_is_last(file);
    joined_path_ends_in_name(out_dir, final_component(file));
}

/// An operation that needs a threshold and comes without one is refused,
/// whatever the input files are, and no job is made.
pub proof fn missing_threshold_is_refused(config: ConfigView, files: Seq<Seq<char>>)
    requires
        needs_threshold(config.command),
        config.id_value is None,
    ensures
        batch_for(config, files) == Err::<Seq<JobSpecView>, BatchErrorView>(
            BatchErrorView::MissingRequiredParameter { operation: config.command },
        ),
{
    threshold_operations_are_known(config.command);
}

/// A threshold that is not strictly between 0 and 1 is refused for every
/// operation of the catalog, whatever the input files are.
pub proof fn bad_threshold_is_refused(config: ConfigView, files: Seq<Seq<char>>)
    requires
        is_operation(config.command),
        config.id_value is Some,
        !is_threshold(config.id_value->0),
    ensures
        batch_for(config, files) == Err::<Seq<JobSpecView>, BatchErrorView>(
            BatchErrorView::InvalidParameter { value: config.id_value->0 },
        ),
{
}

/// A request for an operation of the catalog, with a threshold strictly
/// between 0 and 1 and a number of threads in range, gives one job for each
/// input file, provided that each file can name its output file.
pub proof fn good_request_succeeds(config: ConfigView, files: Seq<Seq<char>>)
    requires
        is_operation(config.command),
        config.id_value is Some,
        is_threshold(config.id_value->0),
        config.num_threads is Some ==> valid_thread_count(config.num_threads->0),
        all_named(files),
    ensures
        batch_for(config, files) is Ok,
        batch_for(config, files)->Ok_0.len() == files.len(),
        forall|i: int|
            0 <= i < files.len() ==> (#[trigger] batch_for(config, files)->Ok_0[i]) == job_for(
                config,
                files[i],
            ),
{
}

/// Building twice from the same request gives the same batch: the same
/// tools and the same arguments in the same order, or the same error.
pub proof fn make_jobs_is_deterministic(
    first: Config,
    first_files: Seq<String>,
    first_batch: Result<Vec<JobSpec>, BatchError>,
    second: Config,
    second_files: Seq<String>,
    second_batch: Result<Vec<JobSpec>, BatchError>,
)
    requires
        first@ == second@,
        texts(first_files) == texts(second_files),
        batch_view(first_batch) == batch_for(first@, texts(first_files)),
        batch_view(second_batch) == batch_for(second@, texts(second_files)),
    ensures
        batch_view(first_batch) == batch_view(second_batch),
        first_batch matches Ok(jobs) ==> (second_batch matches Ok(others) && jobs.len()
            == others.len() && forall|i: int|
            0 <= i < jobs.len() ==> (#[trigger] jobs[i])@.arguments == others[i]@.arguments),
{
    if first_batch is Ok {
        let jobs = first_batch->Ok_0;
        let others = second_batch->Ok_0;
        assert(job_views(jobs@) == job_views(others@));
        assert forall|i: int| 0 <= i < jobs.len() implies (#[trigger] jobs[i])@.arguments
            == others[i]@.arguments by {
            assert(job_views(jobs@)[i] == jobs[i]@);
            assert(job_views(others@)[i] == others[i]@);
        }
    }
}

/// Builds the batch for a request: one job per input file, in their order.
/// The request is checked before any job is made, so an error never comes
/// with part of a batch.
pub fn make_jobs(config: &Config, files: &Vec<String>) -> (r: Result<Vec<JobSpec>, BatchError>)
    ensures
        batch_view(r) == batch_for(config@, texts(files@)),
        r matches Ok(jobs) ==> jobs.len() == files.len() && forall|i: int|
            0 <= i < jobs.len() ==> (#[trigger] jobs[i])@ == job_for(config@, files[i]@),
{
    let command = match validate_command(&config.command) {
        Ok(command) => command,
        Err(error) => {
            return Err(error);
        },
    };
    let threshold: Option<String> = match &config.id_value {
        None => {
            if operation_needs_threshold(command) {
                return Err(BatchError::MissingRequiredParameter { operation: command.clone() });
            }
            None
        },
        Some(text) => match validate_threshold(text) {
            Ok(normal) => Some(normal),
            Err(error) => {
                return Err(error);
            },
        },
    };
    if let Some(n) = config.num_threads {
        if n < 1 || n > MAX_THREADS {
            return Err(BatchError::ConfigError { setting: Setting::ThreadCount });
        }
    }
    let executable = match &config.bin_dir {
        Some(dir) => join_path(dir.as_str(), "vsearch"),
        None => String::from_str("vsearch"),
    };
    let mut operation = String::from_str("--");
    operation.append(command.as_str());
    let ghost names = texts(files@);
    let mut jobs: Vec<JobSpec> = Vec::new();
    let mut i: usize = 0;
    while i < files.len()
        invariant
            i <= files.len(),
            names == texts(files@),
            request_error(config@) is None,
            executable@ == executable_path(config@.bin_dir),
            operation@ == "--"@ + config@.command,
            option_text(threshold) == match config@.id_value {
                Some(text) => Some(threshold_text(text)),
                None => None,
            },
            jobs.len() == i,
            forall|j: int| 0 <= j < i ==> has_base_name(#[trigger] names[j]),
            forall|j: int| 0 <= j < i ==> (#[trigger] jobs[j])@ == job_for(config@, names[j]),
        decreases files.len() - i,
    {
        let file = &files[i];
        assert(names[i as int] == file@);
        let name = match basename(file) {
            Ok(name) => name,
            Err(error) => {
                proof {
                    first_unnamed_is(names, i as int);
                }
                return Err(error);
            },
        };
        let out_file = join_path(config.out_dir.as_str(), name.as_str());
        let mut arguments: Vec<String> = Vec::new();
        arguments.push(operation.clone());
        arguments.push(file.clone());
        if let Some(normal) = &threshold {
            arguments.push(String::from_str("--id"));
            arguments.push(normal.clone());
        }
        arguments.push(String::from_str("--alnout"));
        arguments.push(out_file);
        if let Some(n) = config.num_threads {
            arguments.push(String::from_str("--threads"));
            arguments.push(decimal_string(n as u64));
        }
        assert(texts(arguments@) =~= job_arguments(config@, file@));
        let job = JobSpec::new(executable.clone(), arguments);
        jobs.push(job);
        i = i + 1;
    }
    assert(all_named(names));
    assert(job_views(jobs@) =~= names.map_values(|file: Seq<char>| job_for(config@, file)));
    Ok(jobs)
}

} // verus!
