//! Running a batch with a bounded number of jobs at once.
//!
//! A `Runner` makes the decisions and starts nothing itself. Its caller asks
//! for the next action, starts the job that it is told to start, waits when
//! it is told to wait, and reports each job that has ended. Jobs are started
//! in the order of the batch, never more at once than the limit allows, and
//! none after a job has been reported as failed; jobs that are running then
//! are left to end. The batch as a whole fails with the failed job of the
//! lowest position, whichever was reported first.

use crate::error::{BatchError, BatchErrorView, Setting};
use vstd::prelude::*;

verus! {

/// The number of jobs that run at once when the caller has no wish of its own.
pub const DEFAULT_CONCURRENCY: usize = 12;

/// Why a job failed.
#[derive(Debug, Clone, Copy, PartialEq, Eq, Structural)]
pub enum FailureCause {
    /// The job ran and ended with a status other than success.
    NonZeroExit,
    /// The job could not be started.
    SpawnFailure,
    /// The input of the job could not be written to it.
    InputWriteFailure,
}

/// Where a job stands.
#[derive(Debug, Clone, Copy, PartialEq, Eq, Structural)]
pub enum JobState {
    Pending,
    Running,
    Succeeded,
    Failed(FailureCause),
}

/// Where the batch stands.
#[derive(Debug, Clone, Copy, PartialEq, Eq, Structural)]
pub enum BatchState {
    /// No job has been started and there is something to start.
    Idle,
    /// Jobs are being started or are running.
    Dispatching,
    /// Every job has run and succeeded.
    Completed,
    /// A job has failed and no job is running any more.
    Aborted,
}

/// How a job ended.
#[derive(Debug, Clone, Copy, PartialEq, Eq, Structural)]
pub enum Completion {
    Success,
    Failure(FailureCause),
}

/// How the batch ended.
#[derive(Debug, Clone, Copy, PartialEq, Eq, Structural)]
pub enum RunResult {
    /// Every job ran and succeeded.
    AllSucceeded,
    /// The failed job of the lowest position, and why it failed.
    Aborted { failed_job_index: usize, cause: FailureCause },
}

/// What the caller is to do next.
#[derive(Debug, Clone, Copy, PartialEq, Eq, Structural)]
pub enum Action {
    /// Start the job at this position.
    Dispatch(usize),
    /// Wait for a running job to end, and report it.
    Wait,
    /// Stop: the batch has ended in this way.
    Finish(RunResult),
}

/// The state that a job is in after it has ended.
pub open spec fn ended(completion: Completion) -> JobState {
    match completion {
        Completion::Success => JobState::Succeeded,
        Completion::Failure(cause) => JobState::Failed(cause),
    }
}

/// The number of running jobs.
pub open spec fn running_count(states: Seq<JobState>) -> nat
    decreases states.len(),
{
    if states.len() == 0 {
        0
    } else {
        running_count(states.drop_last()) + if states.last() is Running {
            1nat
        } else {
            0nat
        }
    }
}

/// A job has failed.
pub open spec fn any_failed(states: Seq<JobState>) -> bool {
    exists|i: int| 0 <= i < states.len() && (#[trigger] states[i]) is Failed
}

/// The job at `i` has failed and none before it has.
pub open spec fn is_first_failure(states: Seq<JobState>, i: int) -> bool {
    &&& 0 <= i < states.len()
    &&& states[i] is Failed
    &&& forall|j: int| 0 <= j < i ==> !((#[trigger] states[j]) is Failed)
}

/// The state of a runner as plain mathematical values: the state of each job,
/// the limit, and the position of the next job to start.
pub struct RunnerView {
    pub states: Seq<JobState>,
    pub limit: nat,
    pub next: nat,
}

impl RunnerView {
    /// What holds of every state that a runner reaches: the limit is at least
    /// one, the jobs before `next` have been started and no others, and no
    /// more jobs are running than the limit allows.
    pub open spec fn wf(self) -> bool {
        &&& self.limit >= 1
        &&& self.next <= self.states.len()
        &&& forall|i: int|
            0 <= i < self.states.len() ==> ((#[trigger] self.states[i]) is Pending <==> i
                >= self.next)
        &&& running_count(self.states) <= self.limit
    }

    /// The state before anything is started.
    pub open spec fn initial(job_count: nat, limit: nat) -> RunnerView {
        RunnerView { states: Seq::new(job_count, |i: int| JobState::Pending), limit, next: 0 }
    }

    /// A job has failed.
    pub open spec fn has_failed(self) -> bool {
        any_failed(self.states)
    }

    /// A job can be started: none has failed, one is left, and a place is free.
    pub open spec fn can_dispatch(self) -> bool {
        !self.has_failed() && self.next < self.states.len() && running_count(self.states)
            < self.limit
    }

    /// The position of the failed job that comes first in the batch.
    pub open spec fn first_failure(self) -> int {
        choose|i: int| is_first_failure(self.states, i)
    }

    /// How the batch ends, once nothing runs and nothing can be started.
    pub open spec fn result(self) -> RunResult {
        if self.has_failed() {
            RunResult::Aborted {
                failed_job_index: self.first_failure() as usize,
                cause: self.states[self.first_failure()]->Failed_0,
            }
        } else {
            RunResult::AllSucceeded
        }
    }

    /// What the caller is told to do in this state.
    pub open spec fn next_action(self) -> Action {
        if self.can_dispatch() {
            Action::Dispatch(self.next as usize)
        } else if running_count(self.states) > 0 {
            Action::Wait
        } else {
            Action::Finish(self.result())
        }
    }

    /// The state after the caller has been told what to do: a job that is to
    /// be started counts as running from then on.
    pub open spec fn after_action(self) -> RunnerView {
        if self.can_dispatch() {
            RunnerView {
                states: self.states.update(self.next as int, JobState::Running),
                limit: self.limit,
                next: self.next + 1,
            }
        } else {
            self
        }
    }

    /// The report that the job at `index` has ended is taken: the job is running.
    pub open spec fn accepts(self, index: int) -> bool {
        0 <= index < self.states.len() && self.states[index] is Running
    }

    /// The state after the report that the job at `index` has ended. A report
    /// on a job that is not running changes nothing.
    pub open spec fn after_completion(self, index: int, completion: Completion) -> RunnerView {
        if self.accepts(index) {
            RunnerView {
                states: self.states.update(index, ended(completion)),
                limit: self.limit,
                next: self.next,
            }
        } else {
            self
        }
    }

    /// Where the batch stands.
    pub open spec fn batch_state(self) -> BatchState {
        if self.can_dispatch() || running_count(self.states) > 0 {
            if self.next == 0 {
                BatchState::Idle
            } else {
                BatchState::Dispatching
            }
        } else if self.has_failed() {
            BatchState::Aborted
        } else {
            BatchState::Completed
        }
    }

    /// An upper bound on the steps that are left: two for each job that has
    /// not been started, one for each that is running.
    pub open spec fn work_left(self) -> int {
        2 * (self.states.len() - self.next) + running_count(self.states)
    }
}

/// Changing the state of one job changes the number of running jobs by that job alone.
pub proof fn running_count_update(states: Seq<JobState>, i: int, state: JobState)
    requires
        0 <= i < states.len(),
    ensures
        running_count(states.update(i, state)) == running_count(states) - (if states[i]
            is Running {
            1int
        } else {
            0int
        }) + (if state is Running {
            1int
        } else {
            0int
        }),
    decreases states.len(),
{
    let updated = states.update(i, state);
    if i == states.len() - 1 {
        assert(updated.drop_last() =~= states.drop_last());
    } else {
        running_count_update(states.drop_last(), i, state);
        assert(updated.drop_last() =~= states.drop_last().update(i, state));
    }
}

/// No job is running exactly when the count of running jobs is zero, and the
/// count never exceeds the number of jobs.
pub proof fn running_count_zero(states: Seq<JobState>)
    ensures
        running_count(states) <= states.len(),
        running_count(states) == 0 <==> (forall|i: int|
            0 <= i < states.len() ==> !((#[trigger] states[i]) is Running)),
    decreases states.len(),
{
    if states.len() > 0 {
        let shorter = states.drop_last();
        running_count_zero(shorter);
        if running_count(states) == 0 {
            assert forall|i: int| 0 <= i < states.len() implies !((#[trigger] states[i])
                is Running) by {
                if i < shorter.len() {
                    assert(shorter[i] == states[i]);
                }
            }
        } else if !(states.last() is Running) {
            let i = choose|i: int| 0 <= i < shorter.len() && (#[trigger] shorter[i]) is Running;
            assert(states[i] is Running);
        }
    }
}

/// Only one position is that of the first failed job.
pub proof fn first_failure_is(view: RunnerView, i: int)
    requires
        is_first_failure(view.states, i),
    ensures
        view.has_failed(),
        view.first_failure() == i,
{
    let chosen = view.first_failure();
    assert(is_first_failure(view.states, chosen));
    if chosen < i {
        assert(!(view.states[chosen] is Failed));
    }
    if i < chosen {
        assert(!(view.states[i] is Failed));
    }
}

/// Among failed jobs there is a first one.
pub proof fn first_failure_exists(view: RunnerView, k: int)
    requires
        0 <= k < view.states.len(),
        view.states[k] is Failed,
    ensures
        is_first_failure(view.states, view.first_failure()),
        view.first_failure() <= k,
    decreases k,
{
    if exists|j: int| 0 <= j < k && (#[trigger] view.states[j]) is Failed {
        let j = choose|j: int| 0 <= j < k && (#[trigger] view.states[j]) is Failed;
        first_failure_exists(view, j);
    } else {
        first_failure_is(view, k);
    }
}

/// The state before anything is started is well formed.
pub proof fn initial_is_well_formed(job_count: nat, limit: nat)
    requires
        limit >= 1,
    ensures
        RunnerView::initial(job_count, limit).wf(),
        !RunnerView::initial(job_count, limit).has_failed(),
        running_count(RunnerView::initial(job_count, limit).states) == 0,
{
    running_count_zero(RunnerView::initial(job_count, limit).states);
}

/// Telling the caller what to do keeps the state well formed; starting a job
/// brings the end nearer.
pub proof fn after_action_is_well_formed(view: RunnerView)
    requires
        view.wf(),
    ensures
        view.after_action().wf(),
        view.can_dispatch() ==> view.after_action().work_left() == view.work_left() - 1,
{
    if view.can_dispatch() {
        running_count_update(view.states, view.next as int, JobState::Running);
        assert(view.states[view.next as int] is Pending);
    }
}

/// Taking a report keeps the state well formed; a report that is taken brings
/// the end nearer.
pub proof fn after_completion_is_well_formed(view: RunnerView, index: int, completion: Completion)
    requires
        view.wf(),
    ensures
        view.after_completion(index, completion).wf(),
        view.accepts(index) ==> view.after_completion(index, completion).work_left()
            == view.work_left() - 1,
{
    if view.accepts(index) {
        running_count_update(view.states, index, ended(completion));
    }
}

/// At no time do more jobs run than the limit allows.
pub proof fn running_is_bounded(view: RunnerView)
    requires
        view.wf(),
    ensures
        running_count(view.states) <= view.limit,
        running_count(view.after_action().states) <= view.limit,
        forall|index: int, completion: Completion|
            running_count(#[trigger] view.after_completion(index, completion).states)
                <= view.limit,
{
    after_action_is_well_formed(view);
    assert forall|index: int, completion: Completion|
        running_count(#[trigger] view.after_completion(index, completion).states)
            <= view.limit by {
        after_completion_is_well_formed(view, index, completion);
    }
}

/// Once a job has failed, no further job is started, and no job is ever
/// started twice: a job that is started was pending, and a job that has left
/// the pending state never returns to it.
pub proof fn no_dispatch_after_failure(view: RunnerView)
    requires
        view.wf(),
    ensures
        view.has_failed() ==> !(view.next_action() is Dispatch) && view.after_action() == view,
        view.next_action() is Dispatch ==> view.states[view.next as int] is Pending
            && view.after_action().states[view.next as int] is Running,
        forall|i: int|
            0 <= i < view.states.len() && !((#[trigger] view.states[i]) is Pending)
                ==> view.after_action().states[i] == view.states[i],
{
}

/// A caller that is told to wait has a running job to wait for.
pub proof fn wait_has_running(view: RunnerView)
    requires
        view.wf(),
        view.next_action() is Wait,
    ensures
        exists|i: int| view.accepts(i),
{
    running_count_zero(view.states);
    let i = choose|i: int| 0 <= i < view.states.len() && (#[trigger] view.states[i]) is Running;
    assert(view.accepts(i));
}

/// The batch ends as succeeded exactly when every job has succeeded.
pub proof fn finish_all_succeeded(view: RunnerView)
    requires
        view.wf(),
    ensures
        view.next_action() == Action::Finish(RunResult::AllSucceeded) <==> (forall|i: int|
            0 <= i < view.states.len() ==> (#[trigger] view.states[i]) is Succeeded),
{
    running_count_zero(view.states);
    if forall|i: int| 0 <= i < view.states.len() ==> (#[trigger] view.states[i]) is Succeeded {
        if view.next < view.states.len() {
            assert(view.states[view.next as int] is Pending);
        }
        assert(!view.has_failed());
    }
    if view.next_action() == Action::Finish(RunResult::AllSucceeded) {
        assert forall|i: int| 0 <= i < view.states.len() implies (#[trigger] view.states[i])
            is Succeeded by {
            assert(!(view.states[i] is Running));
            assert(!(view.states[i] is Failed));
        }
    }
}

/// A batch that ends as aborted names a job that has failed, with its cause;
/// every job before it has succeeded, and every job that has not been
/// started is still pending.
pub proof fn finish_aborted(view: RunnerView, index: usize, cause: FailureCause)
    requires
        view.wf(),
        view.states.len() <= usize::MAX,
        view.next_action() == Action::Finish(
            RunResult::Aborted { failed_job_index: index, cause },
        ),
    ensures
        index < view.next,
        view.states[index as int] == JobState::Failed(cause),
        forall|j: int| 0 <= j < index ==> (#[trigger] view.states[j]) is Succeeded,
        forall|j: int|
            view.next <= j < view.states.len() ==> (#[trigger] view.states[j]) is Pending,
{
    running_count_zero(view.states);
    let k = choose|k: int| 0 <= k < view.states.len() && (#[trigger] view.states[k]) is Failed;
    first_failure_exists(view, k);
    assert forall|j: int| 0 <= j < index implies (#[trigger] view.states[j]) is Succeeded by {
        assert(!(view.states[j] is Running));
        assert(!(view.states[j] is Failed));
    }
}

/// The steps that are left are never more than two for each job, and when
/// none is left the batch has ended.
pub proof fn work_left_is_bounded(view: RunnerView)
    requires
        view.wf(),
    ensures
        0 <= view.work_left() <= 2 * view.states.len(),
        view.work_left() == 0 ==> view.next_action() is Finish,
{
    running_count_zero(view.states);
    if view.next < view.states.len() {
        let rest = view.states.subrange(view.next as int, view.states.len() as int);
        running_count_split(view.states, view.next as int);
        running_count_zero(rest);
        running_count_zero(view.states.take(view.next as int));
        assert forall|i: int| 0 <= i < rest.len() implies !((#[trigger] rest[i]) is Running) by {
            assert(view.states[view.next + i] is Pending);
        }
    }
}

/// The running jobs are those before a position and those from it on.
pub proof fn running_count_split(states: Seq<JobState>, k: int)
    requires
        0 <= k <= states.len(),
    ensures
        running_count(states) == running_count(states.take(k)) + running_count(
            states.subrange(k, states.len() as int),
        ),
    decreases states.len(),
{
    let rest = states.subrange(k, states.len() as int);
    if k == states.len() {
        assert(states.take(k) =~= states);
        assert(rest =~= Seq::<JobState>::empty());
    } else {
        running_count_split(states.drop_last(), k);
        assert(states.drop_last().take(k) =~= states.take(k));
        assert(states.drop_last().subrange(k, states.len() - 1) =~= rest.drop_last());
        assert(rest.last() == states.last());
    }
}

/// A batch without jobs ends at once, as succeeded.
pub proof fn empty_batch_succeeds(limit: nat)
    requires
        limit >= 1,
    ensures
        RunnerView::initial(0, limit).next_action() == Action::Finish(RunResult::AllSucceeded),
{
    initial_is_well_formed(0, limit);
}

/// The decisions of one batch.
#[derive(Debug)]
pub struct Runner {
    states: Vec<JobState>,
    limit: usize,
    next: usize,
    running: usize,
    failed: bool,
}

impl View for Runner {
    type V = RunnerView;

    closed spec fn view(&self) -> RunnerView {
        RunnerView { states: self.states@, limit: self.limit as nat, next: self.next as nat }
    }
}

impl Runner {
    /// What holds of every runner: its view is well formed, and what it keeps
    /// beside the states agrees with them.
    pub closed spec fn wf(&self) -> bool {
        &&& self@.wf()
        &&& self.states@.len() <= usize::MAX
        &&& self.running == running_count(self.states@)
        &&& self.failed == any_failed(self.states@)
    }

    /// A well-formed runner has a well-formed view, for as many jobs as a
    /// machine integer can count.
    pub proof fn view_is_well_formed(&self)
        requires
            self.wf(),
        ensures
            self@.wf(),
            self@.states.len() <= usize::MAX,
            self@.limit <= usize::MAX,
    {
    }

    /// A runner for a batch of `job_count` jobs, of which at most `limit` run
    /// at once. A limit of zero is refused.
    pub fn new(job_count: usize, limit: usize) -> (r: Result<Runner, BatchError>)
        ensures
            limit >= 1 ==> (r matches Ok(runner) && runner.wf() && runner@ == RunnerView::initial(
                job_count as nat,
                limit as nat,
            )),
            limit == 0 ==> (r matches Err(e) && e@ == (BatchErrorView::ConfigError {
                setting: Setting::ConcurrencyLimit,
            })),
    {
        if limit == 0 {
            return Err(BatchError::ConfigError { setting: Setting::ConcurrencyLimit });
        }
        let mut states: Vec<JobState> = Vec::new();
        let mut i: usize = 0;
        while i < job_count
            invariant
                i <= job_count,
                states.len() == i,
                forall|j: int| 0 <= j < i ==> states[j] == JobState::Pending,
            decreases job_count - i,
        {
            states.push(JobState::Pending);
            i = i + 1;
        }
        proof {
            assert(states@ =~= RunnerView::initial(job_count as nat, limit as nat).states);
            initial_is_well_formed(job_count as nat, limit as nat);
        }
        Ok(Runner { states, limit, next: 0, running: 0, failed: false })
    }

    /// The number of jobs of the batch.
    pub fn job_count(&self) -> (count: usize)
        ensures
            count == self@.states.len(),
    {
        self.states.len()
    }

    /// The number of jobs that may run at once.
    pub fn limit(&self) -> (limit: usize)
        ensures
            limit == self@.limit,
    {
        self.limit
    }

    /// The number of jobs that are running.
    pub fn running(&self) -> (running: usize)
        requires
            self.wf(),
        ensures
            running == running_count(self@.states),
            running <= self@.limit,
    {
        self.running
    }

    /// Tells whether a job has been reported as failed.
    pub fn has_failed(&self) -> (failed: bool)
        requires
            self.wf(),
        ensures
            failed == self@.has_failed(),
    {
        self.failed
    }

    /// The state of the job at `index`, if the batch has such a job.
    pub fn job_state(&self, index: usize) -> (state: Option<JobState>)
        ensures
            state == if index < self@.states.len() {
                Some(self@.states[index as int])
            } else {
                None
            },
    {
        if index < self.states.len() {
            Some(self.states[index])
        } else {
            None
        }
    }

    /// How the batch has ended: the first failed job, if there is one.
    fn outcome(&self) -> (result: RunResult)
        requires
            self.wf(),
        ensures
            result == self@.result(),
    {
        let mut i: usize = 0;
        while i < self.states.len()
            invariant
                i <= self.states.len(),
                forall|j: int| 0 <= j < i ==> !((#[trigger] self.states@[j]) is Failed),
            decreases self.states.len() - i,
        {
            match self.states[i] {
                JobState::Failed(cause) => {
                    proof {
                        first_failure_is(self@, i as int);
                    }
                    return RunResult::Aborted { failed_job_index: i, cause };
                },
                _ => {},
            }
            i = i + 1;
        }
        RunResult::AllSucceeded
    }

    /// Where the batch stands.
    pub fn batch_state(&self) -> (state: BatchState)
        requires
            self.wf(),
        ensures
            state == self@.batch_state(),
    {
        let can_dispatch = !self.failed && self.next < self.states.len() && self.running
            < self.limit;
        if can_dispatch || self.running > 0 {
            if self.next == 0 {
                BatchState::Idle
            } else {
                BatchState::Dispatching
            }
        } else if self.failed {
            BatchState::Aborted
        } else {
            BatchState::Completed
        }
    }

    /// Decides what the caller is to do next. A job that the caller is told
    /// to start counts as running from this call on.
    pub fn next_action(&mut self) -> (action: Action)
        requires
            old(self).wf(),
        ensures
            final(self).wf(),
            action == old(self)@.next_action(),
            final(self)@ == old(self)@.after_action(),
            running_count(final(self)@.states) <= final(self)@.limit,
            old(self)@.has_failed() ==> !(action is Dispatch),
    {
        proof {
            after_action_is_well_formed(self@);
        }
        if !self.failed && self.next < self.states.len() && self.running < self.limit {
            let index = self.next;
            proof {
                running_count_update(self.states@, index as int, JobState::Running);
                assert(self.states@[index as int] is Pending);
            }
            let ghost before = self.states@;
            self.states.set(index, JobState::Running);
            self.next = index + 1;
            self.running = self.running + 1;
            proof {
                assert(!any_failed(self.states@)) by {
                    if any_failed(self.states@) {
                        let i = choose|i: int|
                            0 <= i < self.states@.len() && (#[trigger] self.states@[i]) is Failed;
                        assert(before[i] is Failed);
                    }
                }
            }
            Action::Dispatch(index)
        } else if self.running > 0 {
            Action::Wait
        } else {
            Action::Finish(self.outcome())
        }
    }

    /// Takes the report that the job at `index` has ended. The report is
    /// taken, and `true` returned, when that job is running; any other report
    /// changes nothing.
    pub fn complete(&mut self, index: usize, completion: Completion) -> (accepted: bool)
        requires
            old(self).wf(),
        ensures
            final(self).wf(),
            accepted == old(self)@.accepts(index as int),
            final(self)@ == old(self)@.after_completion(index as int, completion),
            running_count(final(self)@.states) <= final(self)@.limit,
    {
        proof {
            after_completion_is_well_formed(self@, index as int, completion);
        }
        if index >= self.states.len() {
            return false;
        }
        match self.states[index] {
            JobState::Running => {},
            _ => {
                return false;
            },
        }
        let ghost before = self.states@;
        proof {
            running_count_update(before, index as int, ended(completion));
        }
        match completion {
            Completion::Success => {
                self.states.set(index, JobState::Succeeded);
                proof {
                    if any_failed(before) {
                        let i = choose|i: int|
                            0 <= i < before.len() && (#[trigger] before[i]) is Failed;
                        assert(self.states@[i] is Failed);
                    }
                    if any_failed(self.states@) {
                        let i = choose|i: int|
                            0 <= i < self.states@.len() && (#[trigger] self.states@[i]) is Failed;
                        assert(before[i] is Failed);
                    }
                }
            },
            Completion::Failure(cause) => {
                self.states.set(index, JobState::Failed(cause));
                self.failed = true;
                assert(self.states@[index as int] is Failed);
            },
        }
        self.running = self.running - 1;
        true
    }
}

impl RunResult {
    /// The error that an aborted batch ends the invocation with.
    pub open spec fn error(self) -> Option<BatchErrorView> {
        match self {
            RunResult::AllSucceeded => None,
            RunResult::Aborted { failed_job_index, cause } => match cause {
                FailureCause::SpawnFailure => Some(
                    BatchErrorView::SpawnFailure { index: failed_job_index as nat },
                ),
                _ => Some(BatchErrorView::JobFailure { index: failed_job_index as nat }),
            },
        }
    }

    /// Success for a batch that succeeded, and for an aborted one the error
    /// that names the failed job.
    pub fn into_result(self) -> (r: Result<(), BatchError>)
        ensures
            match self.error() {
                None => r is Ok,
                Some(error) => r matches Err(e) && e@ == error,
            },
    {
        match self {
            RunResult::AllSucceeded => Ok(()),
            RunResult::Aborted { failed_job_index, cause } => match cause {
                FailureCause::SpawnFailure => Err(
                    BatchError::SpawnFailure { index: failed_job_index },
                ),
                _ => Err(BatchError::JobFailure { index: failed_job_index }),
            },
        }
    }
}

} // verus!
