use run_vsearch::{BatchError, Setting};

#[test]
fn message_of_not_found_names_the_path() {
    let error = BatchError::NotFound { path: "missing.fa".to_string() };
    assert_eq!(error.message(), "Cannot read \"missing.fa\"");
}

#[test]
fn message_of_no_input_files_names_every_input() {
    let error = BatchError::NoInputFiles { paths: vec!["a".to_string(), "b/c".to_string()] };
    assert_eq!(error.message(), "No input files can be found in a, b/c");
    let single = BatchError::NoInputFiles { paths: vec!["empty".to_string()] };
    assert_eq!(single.message(), "No input files can be found in empty");
}

#[test]
fn message_of_missing_parameter_names_operation_and_range() {
    let error = BatchError::MissingRequiredParameter { operation: "cluster_fast".to_string() };
    assert_eq!(error.message(), "--cluster_fast requires --id value (0 < id < 1)");
}

#[test]
fn message_of_invalid_parameter_shows_the_value() {
    let error = BatchError::InvalidParameter { value: "1.5".to_string() };
    assert_eq!(error.message(), "Bad --id (1.5), must be between 0 and 1");
}

#[test]
fn message_of_invalid_file_name_shows_the_path() {
    let error = BatchError::InvalidFileName { path: "dir/".to_string() };
    assert_eq!(error.message(), "Cannot get basename from file \"dir/\"");
}

#[test]
fn message_of_job_errors_names_the_job() {
    assert_eq!(BatchError::SpawnFailure { index: 0 }.message(), "Failed to start job 0");
    assert_eq!(BatchError::SpawnFailure { index: 17 }.message(), "Failed to start job 17");
    assert_eq!(BatchError::JobFailure { index: 2 }.message(), "Job 2 failed");
    assert_eq!(BatchError::JobFailure { index: 1000 }.message(), "Job 1000 failed");
}

#[test]
fn message_of_config_error_names_the_setting() {
    assert_eq!(
        BatchError::ConfigError { setting: Setting::ThreadCount }.message(),
        "Bad --num_threads, must be between 1 and 63"
    );
    assert_eq!(
        BatchError::ConfigError { setting: Setting::ConcurrencyLimit }.message(),
        "Bad concurrency limit, must be at least 1"
    );
}
