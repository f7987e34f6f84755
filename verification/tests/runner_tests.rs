use run_vsearch::{
    Action, BatchError, BatchState, Completion, FailureCause, JobState, RunResult, Runner,
    Setting, DEFAULT_CONCURRENCY,
};

struct Trace {
    result: RunResult,
    started: Vec<usize>,
    most_at_once: usize,
    steps: usize,
}

/// Runs a batch to its end. A job fails when `failing` holds its position;
/// of the running jobs the one started last ends first when `newest_first`
/// is set, else the one started first.
fn drive(job_count: usize, limit: usize, failing: &[usize], newest_first: bool) -> Trace {
    let mut runner = Runner::new(job_count, limit).unwrap();
    let mut active: Vec<usize> = vec![];
    let mut trace =
        Trace { result: RunResult::AllSucceeded, started: vec![], most_at_once: 0, steps: 0 };
    loop {
        trace.steps += 1;
        assert!(trace.steps <= 2 * job_count + 1, "the batch must end");
        match runner.next_action() {
            Action::Dispatch(index) => {
                assert!(!trace.started.contains(&index), "job {} started twice", index);
                assert_eq!(runner.job_state(index), Some(JobState::Running));
                active.push(index);
                trace.started.push(index);
            }
            Action::Wait => {
                assert!(!active.is_empty());
                let index = if newest_first { active.pop().unwrap() } else { active.remove(0) };
                let completion = if failing.contains(&index) {
                    Completion::Failure(FailureCause::NonZeroExit)
                } else {
                    Completion::Success
                };
                assert!(runner.complete(index, completion));
            }
            Action::Finish(result) => {
                assert!(active.is_empty());
                trace.result = result;
                return trace;
            }
        }
        assert_eq!(runner.running(), active.len());
        assert!(runner.running() <= limit);
        if active.len() > trace.most_at_once {
            trace.most_at_once = active.len();
        }
    }
}

#[test]
fn never_more_jobs_run_than_the_limit() {
    for job_count in 0..9usize {
        for limit in 1..5usize {
            for newest_first in [false, true] {
                let trace = drive(job_count, limit, &[], newest_first);
                assert_eq!(trace.result, RunResult::AllSucceeded);
                assert_eq!(trace.started, (0..job_count).collect::<Vec<usize>>());
                assert_eq!(trace.most_at_once, if job_count < limit { job_count } else { limit });
                assert_eq!(trace.steps, 2 * job_count + 1);
            }
        }
    }
}

#[test]
fn failure_of_the_third_job_of_five_stops_the_batch() {
    let trace = drive(5, 1, &[2], false);
    assert_eq!(
        trace.result,
        RunResult::Aborted { failed_job_index: 2, cause: FailureCause::NonZeroExit }
    );
    assert_eq!(trace.started, vec![0, 1, 2]);

    let trace = drive(5, 2, &[2], true);
    assert_eq!(
        trace.result,
        RunResult::Aborted { failed_job_index: 2, cause: FailureCause::NonZeroExit }
    );
    assert_eq!(trace.started, vec![0, 1, 2]);
}

#[test]
fn failure_reported_first_stops_dispatch_and_lets_running_jobs_end() {
    let mut runner = Runner::new(5, 3).unwrap();
    assert_eq!(runner.batch_state(), BatchState::Idle);
    assert_eq!(runner.next_action(), Action::Dispatch(0));
    assert_eq!(runner.batch_state(), BatchState::Dispatching);
    assert_eq!(runner.next_action(), Action::Dispatch(1));
    assert_eq!(runner.next_action(), Action::Dispatch(2));
    assert_eq!(runner.next_action(), Action::Wait);
    assert!(!runner.has_failed());
    assert!(runner.complete(2, Completion::Failure(FailureCause::NonZeroExit)));
    assert!(runner.has_failed());
    assert_eq!(runner.running(), 2);
    assert_eq!(runner.next_action(), Action::Wait);
    assert_eq!(runner.batch_state(), BatchState::Dispatching);
    assert!(runner.complete(0, Completion::Success));
    assert_eq!(runner.next_action(), Action::Wait);
    assert!(runner.complete(1, Completion::Success));
    assert_eq!(
        runner.next_action(),
        Action::Finish(RunResult::Aborted {
            failed_job_index: 2,
            cause: FailureCause::NonZeroExit
        })
    );
    assert_eq!(runner.batch_state(), BatchState::Aborted);
    assert_eq!(runner.job_state(0), Some(JobState::Succeeded));
    assert_eq!(runner.job_state(1), Some(JobState::Succeeded));
    assert_eq!(runner.job_state(2), Some(JobState::Failed(FailureCause::NonZeroExit)));
    assert_eq!(runner.job_state(3), Some(JobState::Pending));
    assert_eq!(runner.job_state(4), Some(JobState::Pending));
    assert_eq!(runner.job_state(5), None);
}

#[test]
fn failed_job_of_the_lowest_position_is_named() {
    let mut runner = Runner::new(4, 3).unwrap();
    assert_eq!(runner.next_action(), Action::Dispatch(0));
    assert_eq!(runner.next_action(), Action::Dispatch(1));
    assert_eq!(runner.next_action(), Action::Dispatch(2));
    assert!(runner.complete(2, Completion::Failure(FailureCause::SpawnFailure)));
    assert!(runner.complete(0, Completion::Failure(FailureCause::InputWriteFailure)));
    assert!(runner.complete(1, Completion::Failure(FailureCause::NonZeroExit)));
    assert_eq!(
        runner.next_action(),
        Action::Finish(RunResult::Aborted {
            failed_job_index: 0,
            cause: FailureCause::InputWriteFailure
        })
    );
    assert_eq!(runner.job_state(3), Some(JobState::Pending));
}

#[test]
fn every_failing_position_is_found() {
    for limit in 1..4usize {
        for failing in 0..6usize {
            for newest_first in [false, true] {
                let trace = drive(6, limit, &[failing], newest_first);
                assert_eq!(
                    trace.result,
                    RunResult::Aborted {
                        failed_job_index: failing,
                        cause: FailureCause::NonZeroExit
                    }
                );
                if !newest_first {
                    assert!(trace.started.len() <= failing + limit);
                }
                assert!(trace.started.contains(&failing));
                assert!(trace.most_at_once <= limit);
            }
        }
    }
}

#[test]
fn batch_without_jobs_succeeds_at_once() {
    let mut runner = Runner::new(0, 4).unwrap();
    assert_eq!(runner.job_count(), 0);
    assert_eq!(runner.batch_state(), BatchState::Completed);
    assert_eq!(runner.next_action(), Action::Finish(RunResult::AllSucceeded));
    assert_eq!(runner.next_action(), Action::Finish(RunResult::AllSucceeded));
}

#[test]
fn limit_of_zero_is_a_configuration_error() {
    for job_count in [0usize, 1, 5] {
        assert_eq!(
            Runner::new(job_count, 0).unwrap_err(),
            BatchError::ConfigError { setting: Setting::ConcurrencyLimit }
        );
    }
    assert_eq!(DEFAULT_CONCURRENCY, 12);
}

#[test]
fn runner_remembers_what_it_was_made_with() {
    let runner = Runner::new(7, 3).unwrap();
    assert_eq!(runner.job_count(), 7);
    assert_eq!(runner.limit(), 3);
    assert_eq!(runner.running(), 0);
    assert!(!runner.has_failed());
    for index in 0..7usize {
        assert_eq!(runner.job_state(index), Some(JobState::Pending));
    }
}

#[test]
fn report_on_a_job_that_is_not_running_changes_nothing() {
    let mut runner = Runner::new(3, 2).unwrap();
    assert!(!runner.complete(0, Completion::Success));
    assert!(!runner.complete(7, Completion::Failure(FailureCause::NonZeroExit)));
    assert_eq!(runner.next_action(), Action::Dispatch(0));
    assert!(!runner.complete(1, Completion::Failure(FailureCause::NonZeroExit)));
    assert!(!runner.has_failed());
    assert!(runner.complete(0, Completion::Success));
    assert!(!runner.complete(0, Completion::Failure(FailureCause::NonZeroExit)));
    assert_eq!(runner.job_state(0), Some(JobState::Succeeded));
    assert!(!runner.has_failed());
    assert_eq!(runner.running(), 0);
    assert_eq!(runner.next_action(), Action::Dispatch(1));
    assert_eq!(runner.next_action(), Action::Dispatch(2));
    assert_eq!(runner.next_action(), Action::Wait);
}

#[test]
fn place_freed_by_a_job_is_filled_by_the_next() {
    let mut runner = Runner::new(4, 2).unwrap();
    assert_eq!(runner.next_action(), Action::Dispatch(0));
    assert_eq!(runner.next_action(), Action::Dispatch(1));
    assert_eq!(runner.next_action(), Action::Wait);
    assert_eq!(runner.next_action(), Action::Wait);
    assert!(runner.complete(1, Completion::Success));
    assert_eq!(runner.next_action(), Action::Dispatch(2));
    assert_eq!(runner.next_action(), Action::Wait);
    assert!(runner.complete(0, Completion::Success));
    assert!(runner.complete(2, Completion::Success));
    assert_eq!(runner.next_action(), Action::Dispatch(3));
    assert_eq!(runner.next_action(), Action::Wait);
    assert!(runner.complete(3, Completion::Success));
    assert_eq!(runner.batch_state(), BatchState::Completed);
    assert_eq!(runner.next_action(), Action::Finish(RunResult::AllSucceeded));
}

#[test]
fn result_turns_into_the_error_of_the_invocation() {
    assert_eq!(RunResult::AllSucceeded.into_result(), Ok(()));
    assert_eq!(
        RunResult::Aborted { failed_job_index: 2, cause: FailureCause::NonZeroExit }.into_result(),
        Err(BatchError::JobFailure { index: 2 })
    );
    assert_eq!(
        RunResult::Aborted { failed_job_index: 0, cause: FailureCause::SpawnFailure }
            .into_result(),
        Err(BatchError::SpawnFailure { index: 0 })
    );
    assert_eq!(
        RunResult::Aborted { failed_job_index: 9, cause: FailureCause::InputWriteFailure }
            .into_result(),
        Err(BatchError::JobFailure { index: 9 })
    );
}
