//! The scheduler engine: the queue of upcoming triggers, the runs waiting
//! for a permit, and the decisions the daemon's loop takes on each event.
//! The loop itself (sleeping, receiving messages, running processes) is the
//! caller's: each method here takes the current instant and returns what
//! is to be done.

use crate::config::job::{new_execution_id, next_run_at, same_job, Job, JobExecution, JobStatus};
use crate::config::settings::{effective_timezone_name, Settings, Zone};
use crate::config::{first_job_index, Config};
use crate::error::{error_message, Error};
use crate::executor::JobExecutor;
use crate::scheduler::state::{
    completed_from, job_index, jobs_with, lemma_names_kept, names_distinct, position_of_job, retried_from,
    started_from, stopped_from,
    ScheduledJob, SchedulerState,
};
use crate::scheduler::{ms_until, JobTrigger, SchedulerEvent, SchedulerMessage};
use crate::text::{
    copy_strings, opt_string_view, push_signed_decimal, push_str, signed_decimal, string_of, string_views,
};
use std::collections::VecDeque;
use vstd::prelude::*;

verus! {

/// What a trigger is ordered and found by: its job's name and its instant.
pub open spec fn trigger_key(t: JobTrigger) -> (Seq<char>, i64) {
    (t.job_name@, t.scheduled_at)
}

/// The keys of a queue of triggers, in order.
pub open spec fn queue_keys(q: Seq<JobTrigger>) -> Seq<(Seq<char>, i64)> {
    q.map_values(|t: JobTrigger| trigger_key(t))
}

/// Keys in order of their instants.
pub open spec fn sorted_keys(ks: Seq<(Seq<char>, i64)>) -> bool {
    forall|i: int, j: int| 0 <= i <= j < ks.len() ==> #[trigger] ks[i].1 <= #[trigger] ks[j].1
}

/// Where a trigger at `at` goes in a sorted queue: after every trigger that
/// is not later than it.
pub open spec fn insert_at(ks: Seq<(Seq<char>, i64)>, at: i64) -> int
    decreases ks.len(),
{
    if ks.len() == 0 {
        0
    } else if ks.last().1 <= at {
        ks.len() as int
    } else {
        insert_at(ks.drop_last(), at)
    }
}

/// The place of an insertion is within the sequence.
pub proof fn lemma_insert_at_bounds(ks: Seq<(Seq<char>, i64)>, at: i64)
    ensures
        0 <= insert_at(ks, at) <= ks.len(),
    decreases ks.len(),
{
    if ks.len() > 0 && ks.last().1 > at {
        lemma_insert_at_bounds(ks.drop_last(), at);
    }
}

/// The keys after inserting `k` at its place.
pub open spec fn insert_key(ks: Seq<(Seq<char>, i64)>, k: (Seq<char>, i64)) -> Seq<(Seq<char>, i64)> {
    ks.insert(insert_at(ks, k.1), k)
}

/// A trigger runs one of the listed jobs: its name is listed with a job that
/// has the same fields as the trigger's.
pub open spec fn configured_in(entries: Seq<(String, Job)>, t: JobTrigger) -> bool {
    exists|k: int|
        0 <= k < entries.len() && #[trigger] entries[k].0@ == t.job_name@ && same_job(
            t.job,
            entries[k].1,
        )
}

/// The number of permits for a concurrency limit: 0 means no limit.
pub open spec fn permits_for(max_concurrent: usize) -> usize {
    if max_concurrent == 0 {
        usize::MAX
    } else {
        max_concurrent
    }
}

/// The job-state entry for a listed job: its next run after `now` when it is
/// enabled, and no runs yet.
pub open spec fn planned_job(e: (String, Job), zone: Seq<char>, now: i64) -> ScheduledJob {
    ScheduledJob {
        name: e.0,
        enabled: e.1.enabled,
        schedule: e.1.schedule,
        next_run: if e.1.enabled {
            next_run_at(e.1, zone, now)
        } else {
            None
        },
        last_run: None,
        last_status: None,
        run_count: 0,
        failure_count: 0,
        is_running: false,
        current_execution_id: None,
    }
}

/// An entry keeps, from the entry of its name among `previous`, whether it
/// is running, its last run and status, and its counters.
pub open spec fn carried_over(j: ScheduledJob, previous: Seq<ScheduledJob>) -> ScheduledJob {
    match job_index(previous, j.name@) {
        Some(i) => ScheduledJob {
            is_running: previous[i].is_running,
            last_run: previous[i].last_run,
            last_status: previous[i].last_status,
            run_count: previous[i].run_count,
            failure_count: previous[i].failure_count,
            ..j
        },
        None => j,
    }
}

/// The job states after adding, in order, the entries of the listed jobs.
pub open spec fn jobs_planned(
    jobs: Seq<ScheduledJob>,
    entries: Seq<(String, Job)>,
    previous: Seq<ScheduledJob>,
    zone: Seq<char>,
    now: i64,
) -> Seq<ScheduledJob>
    decreases entries.len(),
{
    if entries.len() == 0 {
        jobs
    } else {
        jobs_with(
            jobs_planned(jobs, entries.drop_last(), previous, zone, now),
            carried_over(planned_job(entries.last(), zone, now), previous),
        )
    }
}

/// The queue's keys after queueing, in order, a trigger for each enabled
/// listed job that has a next run.
pub open spec fn keys_planned(
    ks: Seq<(Seq<char>, i64)>,
    entries: Seq<(String, Job)>,
    zone: Seq<char>,
    now: i64,
) -> Seq<(Seq<char>, i64)>
    decreases entries.len(),
{
    if entries.len() == 0 {
        ks
    } else {
        let before = keys_planned(ks, entries.drop_last(), zone, now);
        let e = entries.last();
        match next_run_at(e.1, zone, now) {
            Some(n) => if e.1.enabled {
                insert_key(before, (e.0@, n))
            } else {
                before
            },
            None => before,
        }
    }
}

/// A key of a planned queue comes from an enabled listed job at its next
/// run after `now`: disabled jobs and jobs without a next run are never
/// queued.
pub proof fn law_only_enabled_jobs_queued(
    entries: Seq<(String, Job)>,
    zone: Seq<char>,
    now: i64,
    k: int,
)
    requires
        0 <= k < keys_planned(Seq::empty(), entries, zone, now).len(),
    ensures
        exists|i: int|
            0 <= i < entries.len() && #[trigger] entries[i].0@ == keys_planned(
                Seq::empty(),
                entries,
                zone,
                now,
            )[k].0 && entries[i].1.enabled && next_run_at(entries[i].1, zone, now) == Some(
                keys_planned(Seq::empty(), entries, zone, now)[k].1,
            ),
    decreases entries.len(),
{
    let before = keys_planned(Seq::empty(), entries.drop_last(), zone, now);
    let all = keys_planned(Seq::empty(), entries, zone, now);
    let e = entries.last();
    let last = entries.len() - 1;
    assert(entries[last] == e);
    let inserted = match next_run_at(e.1, zone, now) {
        Some(n) => e.1.enabled,
        None => false,
    };
    if inserted {
        let n = next_run_at(e.1, zone, now)->0;
        let p = insert_at(before, n);
        lemma_insert_at_bounds(before, n);
        assert(all == before.insert(p, (e.0@, n)));
        if k < p {
            assert(all[k] == before[k]);
            law_only_enabled_jobs_queued(entries.drop_last(), zone, now, k);
            let i = choose|i: int|
                0 <= i < entries.drop_last().len() && #[trigger] entries.drop_last()[i].0@
                    == before[k].0 && entries.drop_last()[i].1.enabled && next_run_at(
                    entries.drop_last()[i].1,
                    zone,
                    now,
                ) == Some(before[k].1);
            assert(entries[i] == entries.drop_last()[i]);
        } else if k == p {
            assert(all[k] == (e.0@, n));
        } else {
            assert(all[k] == before[k - 1]);
            law_only_enabled_jobs_queued(entries.drop_last(), zone, now, k - 1);
            let i = choose|i: int|
                0 <= i < entries.drop_last().len() && #[trigger] entries.drop_last()[i].0@
                    == before[k - 1].0 && entries.drop_last()[i].1.enabled && next_run_at(
                    entries.drop_last()[i].1,
                    zone,
                    now,
                ) == Some(before[k - 1].1);
            assert(entries[i] == entries.drop_last()[i]);
        }
    } else {
        assert(all == before);
        law_only_enabled_jobs_queued(entries.drop_last(), zone, now, k);
        let i = choose|i: int|
            0 <= i < entries.drop_last().len() && #[trigger] entries.drop_last()[i].0@
                == before[k].0 && entries.drop_last()[i].1.enabled && next_run_at(
                entries.drop_last()[i].1,
                zone,
                now,
            ) == Some(before[k].1);
        assert(entries[i] == entries.drop_last()[i]);
    }
}

/// Each job state a plan makes from nothing is the entry of one listed job,
/// with what `previous` knew of a job of its name carried over.
pub proof fn lemma_planned_from_entries(
    entries: Seq<(String, Job)>,
    previous: Seq<ScheduledJob>,
    zone: Seq<char>,
    now: i64,
    i: int,
)
    requires
        0 <= i < jobs_planned(Seq::empty(), entries, previous, zone, now).len(),
    ensures
        exists|k: int|
            0 <= k < entries.len() && jobs_planned(Seq::empty(), entries, previous, zone, now)[i]
                == carried_over(planned_job(#[trigger] entries[k], zone, now), previous),
    decreases entries.len(),
{
    let before = jobs_planned(Seq::empty(), entries.drop_last(), previous, zone, now);
    let j = carried_over(planned_job(entries.last(), zone, now), previous);
    let all = jobs_planned(Seq::empty(), entries, previous, zone, now);
    let last = entries.len() - 1;
    assert(entries[last] == entries.last());
    assert(all == jobs_with(before, j));
    match job_index(before, j.name@) {
        Some(p) => {
            crate::scheduler::state::lemma_job_index(before, j.name@);
            if i == p {
                assert(all[i] == j);
            } else {
                assert(all[i] == before[i]);
                lemma_planned_from_entries(entries.drop_last(), previous, zone, now, i);
                let k = choose|k: int|
                    0 <= k < entries.drop_last().len() && before[i] == carried_over(
                        planned_job(#[trigger] entries.drop_last()[k], zone, now),
                        previous,
                    );
                assert(entries[k] == entries.drop_last()[k]);
            }
        },
        None => {
            if i == before.len() {
                assert(all[i] == j);
            } else {
                assert(all[i] == before[i]);
                lemma_planned_from_entries(entries.drop_last(), previous, zone, now, i);
                let k = choose|k: int|
                    0 <= k < entries.drop_last().len() && before[i] == carried_over(
                        planned_job(#[trigger] entries.drop_last()[k], zone, now),
                        previous,
                    );
                assert(entries[k] == entries.drop_last()[k]);
            }
        },
    }
}

/// A reload keeps, for every job whose name the scheduler knew, whether it
/// is running, its last run and status, and its counts of runs and
/// failures.
pub proof fn law_reload_keeps_counters(
    entries: Seq<(String, Job)>,
    previous: Seq<ScheduledJob>,
    zone: Seq<char>,
    now: i64,
    i: int,
)
    requires
        0 <= i < jobs_planned(Seq::empty(), entries, previous, zone, now).len(),
    ensures
        ({
            let j = jobs_planned(Seq::empty(), entries, previous, zone, now)[i];
            match job_index(previous, j.name@) {
                Some(p) => {
                    &&& j.run_count == previous[p].run_count
                    &&& j.failure_count == previous[p].failure_count
                    &&& j.last_run == previous[p].last_run
                    &&& j.last_status == previous[p].last_status
                    &&& j.is_running == previous[p].is_running
                },
                None => j.run_count == 0 && j.failure_count == 0 && j.last_run is None,
            }
        }),
{
    lemma_planned_from_entries(entries, previous, zone, now, i);
}

/// The number of listed jobs that are enabled.
pub open spec fn enabled_count(entries: Seq<(String, Job)>) -> nat
    decreases entries.len(),
{
    if entries.len() == 0 {
        0
    } else {
        enabled_count(entries.drop_last()) + if entries.last().1.enabled {
            1nat
        } else {
            0nat
        }
    }
}

/// A run of a job: its execution record and what finishing it needs.
pub struct JobRun {
    /// The execution record, created when the run was requested
    pub execution: JobExecution,
    /// The job to run
    pub job: Job,
    /// Whether the job's output goes to the log
    pub print_output: bool,
    /// History entries kept for this job
    pub job_history_size: usize,
    /// History entries kept in all
    pub max_history_size: usize,
    /// The zone the job's next run is computed in
    pub zone: Zone,
}

/// How a run ended, as the caller saw it.
pub enum RunOutcome {
    /// The process exited with a code (-1 when a signal ended it)
    Exited { exit_code: i32, stdout: String, stderr: String },
    /// The job ran longer than its timeout and was killed
    TimedOut,
    /// The process could not be run or waited for; the error's text
    Failed { error: String },
    /// The run was stopped on request
    Cancelled,
}

/// What follows a finished run.
pub enum RunEnd {
    /// The run is over and recorded; the completion event
    Completed(SchedulerEvent),
    /// The run failed and is to be tried again after `delay_ms`, as the
    /// next attempt of the same execution
    Retry { run: JobRun, delay_ms: u64 },
}

/// A failed run is tried again while attempts are left: a job makes
/// `1 + retry_count` attempts in all. A stopped run is not tried again.
pub open spec fn retry_owed(run: JobRun, o: RunOutcome) -> bool {
    &&& !outcome_success(o)
    &&& !(o is Cancelled)
    &&& run.execution.attempt <= run.job.retry_count
    &&& run.execution.attempt < u32::MAX
}

/// The delay before a retry, in milliseconds: `retry_delay` seconds, at
/// most `u64::MAX`.
pub open spec fn retry_delay_ms(seconds: u64) -> u64 {
    if seconds * 1000 <= u64::MAX {
        (seconds * 1000) as u64
    } else {
        u64::MAX
    }
}

/// The outcome of a run, from what running its command gave: its exit code
/// and output, or an error (a timeout, or the error's text).
pub open spec fn outcome_from(result: Result<(i32, String, String), Error>, o: RunOutcome) -> bool {
    match result {
        Ok((exit_code, stdout, stderr)) => o == (RunOutcome::Exited { exit_code, stdout, stderr }),
        Err(Error::JobTimeout { .. }) => o is TimedOut,
        Err(e) => o matches RunOutcome::Failed { error } && error@ == error_message(e),
    }
}

/// The outcome of a run, from what running its command gave.
pub fn outcome_of(result: Result<(i32, String, String), Error>) -> (r: RunOutcome)
    ensures
        outcome_from(result, r),
{
    match result {
        Ok((exit_code, stdout, stderr)) => RunOutcome::Exited { exit_code, stdout, stderr },
        Err(e) => match e {
            Error::JobTimeout { .. } => RunOutcome::TimedOut,
            _ => RunOutcome::Failed { error: e.message() },
        },
    }
}

/// The status a run is recorded with, from what running its command gave:
/// success for exit code 0, a failure naming the code for another code, a
/// timeout for the timeout error, a failure with the error's text for any
/// other error; it is a success exactly when the outcome is.
pub proof fn law_status_of_result(
    result: Result<(i32, String, String), Error>,
    o: RunOutcome,
    e: JobExecution,
    started: JobExecution,
    now: i64,
)
    requires
        outcome_from(result, o),
        finished_as(e, started, o, now),
    ensures
        match result {
            Ok((c, _, _)) => if c == 0 {
                e.status is Success
            } else {
                e.status matches JobStatus::Failed { error } && error@ == exit_message(c)
            },
            Err(Error::JobTimeout { .. }) => e.status is Timeout,
            Err(err) => e.status matches JobStatus::Failed { error } && error@ == error_message(err),
        },
        (e.status is Success) == outcome_success(o),
{
}

/// The error text of a run that exited with a code other than 0.
pub open spec fn exit_message(code: i32) -> Seq<char> {
    "Exit code: "@ + signed_decimal(code as int)
}

/// A run that succeeded: it exited with code 0.
pub open spec fn outcome_success(o: RunOutcome) -> bool {
    o matches RunOutcome::Exited { exit_code, .. } && exit_code == 0
}

/// The execution record `e` is `started` finished at `now` with outcome
/// `o`.
pub open spec fn finished_as(e: JobExecution, started: JobExecution, o: RunOutcome, now: i64) -> bool {
    match o {
        RunOutcome::Exited { exit_code, stdout, stderr } => if exit_code == 0 {
            e == (JobExecution {
                ended_at: Some(now),
                status: JobStatus::Success,
                exit_code: Some(exit_code),
                stdout: Some(stdout),
                stderr: Some(stderr),
                ..started
            })
        } else {
            &&& e.status matches JobStatus::Failed { error } && error@ == exit_message(exit_code)
            &&& e == (JobExecution {
                ended_at: Some(now),
                status: e.status,
                exit_code: Some(exit_code),
                stdout: Some(stdout),
                stderr: Some(stderr),
                ..started
            })
        },
        RunOutcome::TimedOut => e == (JobExecution {
            ended_at: Some(now),
            status: JobStatus::Timeout,
            ..started
        }),
        RunOutcome::Cancelled => e == (JobExecution {
            ended_at: Some(now),
            status: JobStatus::Cancelled,
            ..started
        }),
        RunOutcome::Failed { error } => {
            &&& e.stdout matches Some(out) && out@ == Seq::<char>::empty()
            &&& e.stderr matches Some(err) && err@ == Seq::<char>::empty()
            &&& e == (JobExecution {
                ended_at: Some(now),
                status: JobStatus::Failed { error },
                exit_code: None,
                stdout: e.stdout,
                stderr: e.stderr,
                ..started
            })
        },
    }
}

/// `run` is the run requested at `now` for job `name` as execution `id`,
/// started by `source`, under the given settings and zone: a fresh running
/// execution record, and the output and history settings in force.
pub open spec fn requested(
    run: JobRun,
    id: uuid::Uuid,
    name: Seq<char>,
    source: Seq<char>,
    now: i64,
    settings: Settings,
    zone: Seq<char>,
) -> bool {
    &&& run.execution.id == id
    &&& run.execution.job_name@ == name
    &&& run.execution.trigger@ == source
    &&& run.execution.started_at == now
    &&& run.execution.ended_at is None
    &&& run.execution.status == JobStatus::Running
    &&& run.execution.exit_code is None
    &&& run.execution.stdout is None
    &&& run.execution.stderr is None
    &&& run.execution.attempt == 1
    &&& run.print_output == match run.job.print_output {
        Some(b) => b,
        None => settings.print_output,
    }
    &&& run.job_history_size == settings.job_history_size
    &&& run.max_history_size == settings.max_history_size
    &&& run.zone@ == zone
}

/// The scheduler `new` is `old` after a request to run job `name` now,
/// started by `source`, with result `r`: the first job listed under that
/// name gets a waiting run, or, when none is listed, the request fails with
/// `JobNotFound` and nothing changes.
pub open spec fn trigger_result(
    new: Scheduler,
    old: Scheduler,
    name: Seq<char>,
    source: Seq<char>,
    now: i64,
    r: Result<uuid::Uuid, Error>,
) -> bool {
    match first_job_index(old.config.jobs@, name) {
        None => {
            &&& r matches Err(Error::JobNotFound { job_name }) && job_name@ == name
            &&& new == old
        },
        Some(i) => {
            &&& r matches Ok(id) && requested(
                new.waiting@.last(),
                id,
                name,
                source,
                now,
                old.config.settings,
                old.zone_name(),
            )
            &&& new.waiting@ == old.waiting@.push(new.waiting@.last())
            &&& same_job(new.waiting@.last().job, old.config.jobs@[i].1)
            &&& new == (Scheduler { waiting: new.waiting, ..old })
        },
    }
}

/// The scheduler `new` is `old` after executing the due `trigger` at `now`,
/// with result `r`: the job's next run after `now` is queued (and noted in
/// its state) when it is later than the trigger, and a run of the job is
/// requested, `r` naming it, unless the job is running.
pub open spec fn executed_from(
    new: Scheduler,
    old: Scheduler,
    trigger: JobTrigger,
    now: i64,
    r: Option<uuid::Uuid>,
) -> bool {
    let next = next_run_at(trigger.job, old.zone_name(), now);
    let again = next matches Some(n) && n > trigger.scheduled_at;
    let busy = job_index(old.state.jobs@, trigger.job_name@) matches Some(i)
        && old.state.jobs@[i].is_running;
    &&& again ==> queue_keys(new.trigger_queue@) == insert_key(
        queue_keys(old.trigger_queue@),
        (trigger.job_name@, next->0),
    )
    &&& !again ==> new.trigger_queue@ == old.trigger_queue@
    &&& new.state.jobs@ == if again {
        match job_index(old.state.jobs@, trigger.job_name@) {
            Some(i) => old.state.jobs@.update(
                i,
                ScheduledJob { next_run: next, ..old.state.jobs@[i] },
            ),
            None => old.state.jobs@,
        }
    } else {
        old.state.jobs@
    }
    &&& busy ==> (r is None && new.waiting == old.waiting)
    &&& !busy ==> (r matches Some(id) && requested(
        new.waiting@.last(),
        id,
        trigger.job_name@,
        "cron"@,
        now,
        old.config.settings,
        old.zone_name(),
    ))
    &&& !busy ==> new.waiting@ == old.waiting@.push(new.waiting@.last())
    &&& !busy ==> new.waiting@.last().job == trigger.job
    &&& new.state == (SchedulerState { jobs: new.state.jobs, ..old.state })
    &&& new == (Scheduler {
        state: new.state,
        trigger_queue: new.trigger_queue,
        waiting: new.waiting,
        ..old
    })
}

/// `b` is `a` after one step of processing due triggers at `now`: the first
/// trigger of `a` is due, it leaves the queue, and it is executed.
pub open spec fn due_step(a: Scheduler, b: Scheduler, now: i64) -> bool {
    &&& a.trigger_queue@.len() > 0
    &&& a.trigger_queue@[0].scheduled_at <= now
    &&& exists|mid: Scheduler, r: Option<uuid::Uuid>|
        #[trigger] executed_from(b, mid, a.trigger_queue@[0], now, r) && mid == (Scheduler {
            trigger_queue: mid.trigger_queue,
            ..a
        }) && mid.trigger_queue@ == a.trigger_queue@.drop_first()
}

/// How overdue a trigger at `at` is at `now`: one more than the
/// milliseconds since it fell due, or nothing when it is not due.
pub open spec fn overdue(at: i64, now: i64) -> nat {
    if at <= now {
        (now - at + 1) as nat
    } else {
        0
    }
}

/// The sum of how overdue the queued triggers are at `now`.
pub open spec fn due_weight(ks: Seq<(Seq<char>, i64)>, now: i64) -> nat
    decreases ks.len(),
{
    if ks.len() == 0 {
        0
    } else {
        overdue(ks[0].1, now) + due_weight(ks.drop_first(), now)
    }
}

/// Inserting a key adds how overdue it is.
pub proof fn lemma_weight_insert(ks: Seq<(Seq<char>, i64)>, p: int, k: (Seq<char>, i64), now: i64)
    requires
        0 <= p <= ks.len(),
    ensures
        due_weight(ks.insert(p, k), now) == due_weight(ks, now) + overdue(k.1, now),
    decreases p,
{
    if p == 0 {
        assert(ks.insert(0, k).drop_first() =~= ks);
    } else {
        assert(ks.insert(p, k).drop_first() =~= ks.drop_first().insert(p - 1, k));
        lemma_weight_insert(ks.drop_first(), p - 1, k, now);
    }
}

/// The listed jobs that run when the scheduler starts: enabled ones marked
/// `run_on_startup`, in order.
pub open spec fn startup_entries(entries: Seq<(String, Job)>) -> Seq<(String, Job)>
    decreases entries.len(),
{
    if entries.len() == 0 {
        Seq::empty()
    } else if entries.last().1.enabled && entries.last().1.run_on_startup {
        startup_entries(entries.drop_last()).push(entries.last())
    } else {
        startup_entries(entries.drop_last())
    }
}

/// Each job that runs at startup is one of the listed jobs.
pub proof fn lemma_startup_listed(entries: Seq<(String, Job)>, k: int)
    requires
        0 <= k < startup_entries(entries).len(),
    ensures
        exists|i: int| 0 <= i < entries.len() && #[trigger] entries[i] == startup_entries(entries)[k],
    decreases entries.len(),
{
    let before = startup_entries(entries.drop_last());
    if k < before.len() {
        lemma_startup_listed(entries.drop_last(), k);
        let i = choose|i: int|
            0 <= i < entries.drop_last().len() && #[trigger] entries.drop_last()[i] == before[k];
        assert(entries[i] == entries.drop_last()[i]);
    } else {
        assert(entries[entries.len() - 1] == entries.last());
    }
}

/// What the scheduler's loop does after a message.
pub enum MessageOutcome {
    /// A job was triggered, or could not be
    Triggered(Result<uuid::Uuid, Error>),
    /// The configuration is to be read again and handed to `reload_config`
    ReloadRequested,
    /// The state is to be reported
    StatusRequested,
    /// The job is to be stopped: the execution it was running, whose
    /// process the caller ends, or `None` when it was not running
    StopRequested { job_name: String, execution_id: Option<uuid::Uuid> },
    /// The scheduler stops
    ShutdownRequested,
}

/// The main scheduler
pub struct Scheduler {
    /// Configuration
    pub config: Config,
    /// Config file path for reloading
    pub config_path: String,
    /// Scheduler state
    pub state: SchedulerState,
    /// Job executor
    pub executor: JobExecutor,
    /// Upcoming triggers, earliest first
    pub trigger_queue: Vec<JobTrigger>,
    /// Runs requested and waiting for a permit, oldest first
    pub waiting: VecDeque<JobRun>,
    /// Permits for concurrent runs
    pub permits: usize,
    /// Permits held by runs that have started and not finished
    pub in_flight: usize,
    /// Shutdown flag
    pub shutdown: bool,
    /// The `TZ` environment variable when the scheduler was made
    pub tz_env: Option<String>,
    /// The machine's zone name when the scheduler was made
    pub system_tz: Option<String>,
}

impl Scheduler {
    /// The scheduler's invariant: the queue is in order of time and runs
    /// only configured jobs, job names are distinct, and no more runs hold a
    /// permit than there are permits.
    pub open spec fn wf(self) -> bool {
        &&& sorted_keys(queue_keys(self.trigger_queue@))
        &&& forall|i: int|
            0 <= i < self.trigger_queue@.len() ==> configured_in(
                self.config.jobs@,
                #[trigger] self.trigger_queue@[i],
            )
        &&& names_distinct(self.state.jobs@)
        &&& self.state.enabled_jobs <= self.state.total_jobs
        &&& 0 < self.permits
        &&& self.in_flight <= self.permits
    }

    /// The name of the zone the scheduler computes run times in.
    pub open spec fn zone_name(self) -> Seq<char> {
        effective_timezone_name(
            self.config.settings.timezone@,
            opt_string_view(self.tz_env),
            opt_string_view(self.system_tz),
        )
    }

    /// Create a new scheduler, given the `TZ` environment variable and the
    /// machine's zone name (each if there is one).
    pub fn new(
        config: Config,
        config_path: String,
        tz_env: Option<String>,
        system_tz: Option<String>,
    ) -> (r: Scheduler)
        ensures
            r.wf(),
            r.config == config,
            r.config_path == config_path,
            r.tz_env == tz_env,
            r.system_tz == system_tz,
            r.state.jobs@.len() == 0,
            r.state.recent_history@.len() == 0,
            r.state.total_jobs == 0,
            r.state.enabled_jobs == 0,
            r.state.running_jobs == 0,
            r.state.total_executions == 0,
            r.state.total_failures == 0,
            r.state.is_running,
            r.executor.shell == config.settings.shell,
            string_views(r.executor.shell_args@) == string_views(config.settings.shell_args@),
            r.trigger_queue@.len() == 0,
            r.waiting@.len() == 0,
            r.permits == permits_for(config.settings.max_concurrent_jobs),
            r.in_flight == 0,
            !r.shutdown,
    {
        let permits = Scheduler::permit_count(config.settings.max_concurrent_jobs);
        let executor = JobExecutor::new(
            config.settings.shell.clone(),
            copy_strings(&config.settings.shell_args),
        );
        Scheduler {
            config,
            config_path,
            state: SchedulerState::new(),
            executor,
            trigger_queue: Vec::new(),
            waiting: VecDeque::new(),
            permits,
            in_flight: 0,
            shutdown: false,
            tz_env,
            system_tz,
        }
    }

    /// The number of permits for a concurrency limit: 0 means no limit.
    pub fn permit_count(max_concurrent: usize) -> (r: usize)
        ensures
            r == permits_for(max_concurrent),
    {
        if max_concurrent == 0 {
            usize::MAX
        } else {
            max_concurrent
        }
    }

    /// Get the scheduler state
    pub fn get_state(&self) -> (r: &SchedulerState)
        ensures
            *r == self.state,
    {
        &self.state
    }

    /// Get the configuration
    pub fn get_config(&self) -> (r: &Config)
        ensures
            *r == self.config,
    {
        &self.config
    }

    /// The zone the scheduler computes run times in.
    pub fn zone(&self) -> (r: Zone)
        ensures
            r@ == self.zone_name(),
    {
        let tz_env = match &self.tz_env {
            Some(s) => Some(s.as_str()),
            None => None,
        };
        let system_tz = match &self.system_tz {
            Some(s) => Some(s.as_str()),
            None => None,
        };
        self.config.settings.effective_timezone(tz_env, system_tz)
    }

    /// Initialize the scheduler state from the configuration at `now`: an
    /// entry for each job, and a trigger for each enabled job that has a
    /// next run.
    pub fn initialize(&mut self, now: i64)
        requires
            old(self).wf(),
            old(self).state.total_jobs + old(self).config.jobs@.len() <= usize::MAX,
        ensures
            final(self).wf(),
            final(self).state.jobs@ == jobs_planned(
                old(self).state.jobs@,
                old(self).config.jobs@,
                Seq::empty(),
                old(self).zone_name(),
                now,
            ),
            final(self).state.total_jobs == old(self).state.total_jobs + old(self).config.jobs@.len(),
            final(self).state.enabled_jobs == old(self).state.enabled_jobs + enabled_count(
                old(self).config.jobs@,
            ),
            final(self).state == (SchedulerState {
                jobs: final(self).state.jobs,
                total_jobs: final(self).state.total_jobs,
                enabled_jobs: final(self).state.enabled_jobs,
                ..old(self).state
            }),
            queue_keys(final(self).trigger_queue@) == keys_planned(
                queue_keys(old(self).trigger_queue@),
                old(self).config.jobs@,
                old(self).zone_name(),
                now,
            ),
            *final(self) == (Scheduler {
                state: final(self).state,
                trigger_queue: final(self).trigger_queue,
                ..*old(self)
            }),
    {
        let zone = self.zone();
        let previous: Vec<ScheduledJob> = Vec::new();
        assert(previous@ =~= Seq::<ScheduledJob>::empty());
        plan_jobs(&mut self.state, &mut self.trigger_queue, &self.config.jobs, &previous, &zone, now);
    }

    /// Reload the configuration at `now`: a token the new configuration
    /// lacks is kept, the executor takes the new shell, and the job states
    /// and the queue are rebuilt from the new jobs, each job keeping what
    /// was known of a job of its name. Returns the number of enabled jobs.
    pub fn reload_config(&mut self, new_config: Config, now: i64) -> (r: usize)
        requires
            old(self).wf(),
        ensures
            final(self).wf(),
            final(self).config == (Config {
                settings: Settings {
                    api_token: if new_config.settings.api_token is None {
                        old(self).config.settings.api_token
                    } else {
                        new_config.settings.api_token
                    },
                    ..new_config.settings
                },
                ..new_config
            }),
            final(self).executor.shell == new_config.settings.shell,
            string_views(final(self).executor.shell_args@) == string_views(
                new_config.settings.shell_args@,
            ),
            final(self).state.jobs@ == jobs_planned(
                Seq::empty(),
                new_config.jobs@,
                old(self).state.jobs@,
                final(self).zone_name(),
                now,
            ),
            final(self).state.total_jobs == new_config.jobs@.len(),
            final(self).state.enabled_jobs == enabled_count(new_config.jobs@),
            r == final(self).state.enabled_jobs,
            final(self).state == (SchedulerState {
                jobs: final(self).state.jobs,
                total_jobs: final(self).state.total_jobs,
                enabled_jobs: final(self).state.enabled_jobs,
                ..old(self).state
            }),
            queue_keys(final(self).trigger_queue@) == keys_planned(
                Seq::empty(),
                new_config.jobs@,
                final(self).zone_name(),
                now,
            ),
            *final(self) == (Scheduler {
                config: final(self).config,
                state: final(self).state,
                executor: final(self).executor,
                trigger_queue: final(self).trigger_queue,
                ..*old(self)
            }),
    {
        let mut new_config = new_config;
        if new_config.settings.api_token.is_none() {
            match &self.config.settings.api_token {
                Some(token) => {
                    new_config.settings.api_token = Some(token.clone());
                },
                None => {},
            }
        }
        self.executor.update_shell(
            new_config.settings.shell.clone(),
            copy_strings(&new_config.settings.shell_args),
        );
        self.trigger_queue.clear();
        let mut previous: Vec<ScheduledJob> = Vec::new();
        std::mem::swap(&mut previous, &mut self.state.jobs);
        self.state.total_jobs = 0;
        self.state.enabled_jobs = 0;
        self.config = new_config;
        let zone = self.zone();
        assert(self.state.jobs@ =~= Seq::<ScheduledJob>::empty());
        assert(queue_keys(self.trigger_queue@) =~= Seq::<(Seq<char>, i64)>::empty());
        let _count = self.config.jobs.len();
        plan_jobs(&mut self.state, &mut self.trigger_queue, &self.config.jobs, &previous, &zone, now);
        self.state.enabled_jobs
    }

    /// Request a run of a job, started by `source`, at `now`: a fresh
    /// execution record joins the runs waiting for a permit. Returns the
    /// execution's identifier.
    pub fn spawn_job_execution(
        &mut self,
        job_name: String,
        job: Job,
        source: &str,
        now: i64,
    ) -> (r: uuid::Uuid)
        requires
            old(self).wf(),
        ensures
            final(self).wf(),
            final(self).waiting@ == old(self).waiting@.push(final(self).waiting@.last()),
            requested(
                final(self).waiting@.last(),
                r,
                job_name@,
                source@,
                now,
                old(self).config.settings,
                old(self).zone_name(),
            ),
            final(self).waiting@.last().execution.job_name == job_name,
            final(self).waiting@.last().job == job,
            *final(self) == (Scheduler { waiting: final(self).waiting, ..*old(self) }),
    {
        let print_output = match job.print_output {
            Some(b) => b,
            None => self.config.settings.print_output,
        };
        let execution = JobExecution::new_at(job_name, String::from_str(source), new_execution_id(), now);
        let id = execution.id;
        let zone = self.zone();
        let run = JobRun {
            execution,
            job,
            print_output,
            job_history_size: self.config.settings.job_history_size,
            max_history_size: self.config.settings.max_history_size,
            zone,
        };
        self.waiting.push_back(run);
        id
    }

    /// The oldest waiting run, when a permit is free: it takes the permit
    /// and its job is marked started at `now`.
    pub fn start_next_run(&mut self, now: i64) -> (r: Option<JobRun>)
        requires
            old(self).wf(),
            old(self).waiting@.len() > 0 && old(self).in_flight < old(self).permits
                && job_index(old(self).state.jobs@, old(self).waiting@[0].execution.job_name@)
                is Some ==> old(self).state.running_jobs < usize::MAX,
        ensures
            final(self).wf(),
            if old(self).waiting@.len() > 0 && old(self).in_flight < old(self).permits {
                &&& r == Some(old(self).waiting@[0])
                &&& final(self).waiting@ == old(self).waiting@.drop_first()
                &&& final(self).in_flight == old(self).in_flight + 1
                &&& started_from(
                    final(self).state,
                    old(self).state,
                    old(self).waiting@[0].execution.job_name@,
                    old(self).waiting@[0].execution.id,
                    now,
                )
                &&& *final(self) == (Scheduler {
                    waiting: final(self).waiting,
                    in_flight: final(self).in_flight,
                    state: final(self).state,
                    ..*old(self)
                })
            } else {
                &&& r is None
                &&& *final(self) == *old(self)
            },
    {
        if self.waiting.len() > 0 && self.in_flight < self.permits {
            let ghost w0 = self.waiting@;
            match self.waiting.pop_front() {
                Some(run) => {
                    self.in_flight = self.in_flight + 1;
                    self.state.record_job_start(run.execution.job_name.as_str(), run.execution.id, now);
                    proof {
                        lemma_names_kept(old(self).state.jobs@, self.state.jobs@);
                    }
                    Some(run)
                },
                None => None,
            }
        } else {
            None
        }
    }

    /// Finish a run that ended with `outcome` at `now`, after `duration_ms`;
    /// its permit is released. A failed run with attempts left is to be
    /// tried again after the job's retry delay, as the next attempt, and its
    /// job is marked as being retried. Otherwise its execution record is
    /// completed, its job gets one more run and its next run after `now`,
    /// the history keeps the record, and the completion event is returned.
    pub fn finish_run(&mut self, run: JobRun, outcome: RunOutcome, now: i64, duration_ms: u64) -> (r:
        RunEnd)
        requires
            old(self).wf(),
            !retry_owed(run, outcome) ==> (job_index(
                old(self).state.jobs@,
                run.execution.job_name@,
            ) matches Some(i) ==> {
                &&& old(self).state.jobs@[i].run_count < u64::MAX
                &&& old(self).state.total_executions < u64::MAX
                &&& !outcome_success(outcome) ==> old(self).state.jobs@[i].failure_count < u64::MAX
                &&& !outcome_success(outcome) ==> old(self).state.total_failures < u64::MAX
            }),
        ensures
            final(self).wf(),
            final(self).in_flight == if old(self).in_flight > 0 {
                (old(self).in_flight - 1) as usize
            } else {
                0
            },
            *final(self) == (Scheduler {
                state: final(self).state,
                in_flight: final(self).in_flight,
                ..*old(self)
            }),
            retry_owed(run, outcome) ==> {
                &&& r == (RunEnd::Retry {
                    run: JobRun {
                        execution: JobExecution {
                            attempt: (run.execution.attempt + 1) as u32,
                            ..run.execution
                        },
                        ..run
                    },
                    delay_ms: retry_delay_ms(run.job.retry_delay),
                })
                &&& retried_from(
                    final(self).state,
                    old(self).state,
                    run.execution.job_name@,
                    (run.execution.attempt + 1) as u32,
                )
            },
            !retry_owed(run, outcome) ==> {
                &&& exists|e: JobExecution|
                    #[trigger] finished_as(e, run.execution, outcome, now) && completed_from(
                        final(self).state,
                        old(self).state,
                        run.execution.job_name@,
                        e.status,
                        e,
                        next_run_at(run.job, run.zone@, now),
                        run.job_history_size as nat,
                        run.max_history_size as nat,
                    )
                &&& r == RunEnd::Completed(
                    SchedulerEvent::JobCompleted {
                        job_name: run.execution.job_name,
                        execution_id: run.execution.id,
                        success: outcome_success(outcome),
                        duration_ms,
                    },
                )
            },
    {
        let ghost o = outcome;
        let ghost started = run.execution;
        let ghost run0 = run;
        let failed = match &outcome {
            RunOutcome::Exited { exit_code, .. } => *exit_code != 0,
            RunOutcome::TimedOut => true,
            RunOutcome::Failed { .. } => true,
            RunOutcome::Cancelled => false,
        };
        if self.in_flight > 0 {
            self.in_flight = self.in_flight - 1;
        }
        if failed && run.execution.attempt <= run.job.retry_count && run.execution.attempt < u32::MAX {
            let attempt = run.execution.attempt + 1;
            self.state.record_job_retry(run.execution.job_name.as_str(), attempt);
            proof {
                lemma_names_kept(old(self).state.jobs@, self.state.jobs@);
            }
            let delay_ms = if run.job.retry_delay <= u64::MAX / 1000 {
                run.job.retry_delay * 1000
            } else {
                u64::MAX
            };
            let mut run = run;
            run.execution.attempt = attempt;
            return RunEnd::Retry { run, delay_ms };
        }
        let JobRun { execution, job, print_output: _, job_history_size, max_history_size, zone } = run;
        let mut execution = execution;
        let success = match &outcome {
            RunOutcome::Exited { exit_code, .. } => *exit_code == 0,
            _ => false,
        };
        let status = match outcome {
            RunOutcome::Exited { exit_code, stdout, stderr } => {
                if exit_code == 0 {
                    execution.complete_success_at(now, exit_code, stdout, stderr);
                    JobStatus::Success
                } else {
                    let message = exit_message_of(exit_code);
                    execution.complete_failed_at(now, message.clone(), Some(exit_code), stdout, stderr);
                    JobStatus::Failed { error: message }
                }
            },
            RunOutcome::TimedOut => {
                execution.complete_timeout_at(now);
                JobStatus::Timeout
            },
            RunOutcome::Failed { error } => {
                execution.complete_failed_at(now, error.clone(), None, String::new(), String::new());
                JobStatus::Failed { error }
            },
            RunOutcome::Cancelled => {
                execution.ended_at = Some(now);
                execution.status = JobStatus::Cancelled;
                JobStatus::Cancelled
            },
        };
        let next = job.next_run_after(&zone, now);
        let job_name = execution.job_name.clone();
        let execution_id = execution.id;
        let ghost finished = execution;
        assert(finished_as(finished, started, o, now));
        assert(status == finished.status);
        self.state.record_job_completion(
            job_name.as_str(),
            status,
            execution,
            next,
            job_history_size,
            max_history_size,
        );
        proof {
            lemma_names_kept(old(self).state.jobs@, self.state.jobs@);
        }
        RunEnd::Completed(SchedulerEvent::JobCompleted { job_name, execution_id, success, duration_ms })
    }

    /// Put a run that is to be tried again among the waiting runs, once its
    /// delay has passed.
    pub fn requeue_retry(&mut self, run: JobRun)
        requires
            old(self).wf(),
        ensures
            final(self).wf(),
            final(self).waiting@ == old(self).waiting@.push(run),
            *final(self) == (Scheduler { waiting: final(self).waiting, ..*old(self) }),
    {
        self.waiting.push_back(run);
    }

    /// Execute a due trigger at `now`: the job's next run (computed from
    /// `now`) is queued when it is later than the trigger, and a run is
    /// requested unless the job is still running. Returns the requested
    /// run's identifier.
    pub fn execute_trigger(&mut self, trigger: JobTrigger, now: i64) -> (r: Option<uuid::Uuid>)
        requires
            old(self).wf(),
            configured_in(old(self).config.jobs@, trigger),
        ensures
            final(self).wf(),
            executed_from(*final(self), *old(self), trigger, now, r),
    {
        let zone = self.zone();
        let next = trigger.job.next_run_after(&zone, now);
        match next {
            Some(n) => {
                if n > trigger.scheduled_at {
                    let t = JobTrigger::new(trigger.job_name.clone(), n, trigger.job.duplicate());
                    proof {
                        let entries = self.config.jobs@;
                        let k = choose|k: int|
                            0 <= k < entries.len() && #[trigger] entries[k].0@ == trigger.job_name@
                                && same_job(trigger.job, entries[k].1);
                        assert(entries[k].0@ == t.job_name@);
                    }
                    self.push_trigger(t);
                    self.state.set_next_run(trigger.job_name.as_str(), Some(n));
                    proof {
                        lemma_names_kept(old(self).state.jobs@, self.state.jobs@);
                    }
                }
            },
            None => {},
        }
        let ghost jobs_mid = self.state.jobs@;
        let running = match self.state.get_job(trigger.job_name.as_str()) {
            Some(sj) => sj.is_running,
            None => false,
        };
        proof {
            let name = trigger.job_name@;
            let jobs0 = old(self).state.jobs@;
            if jobs_mid != jobs0 {
                let i = job_index(jobs0, name)->0;
                assert(jobs_mid[i].name@ == name);
                assert(job_index(jobs_mid, name) == job_index(jobs0, name)) by {
                    assert(forall|k: int| 0 <= k < jobs0.len() ==> #[trigger] jobs_mid[k].name@ == jobs0[k].name@);
                }
            }
        }
        if running {
            None
        } else {
            Some(self.spawn_job_execution(trigger.job_name, trigger.job, "cron", now))
        }
    }

    /// Request a run of a job now, started by hand.
    pub fn trigger_job(&mut self, job_name: &str, now: i64) -> (r: Result<uuid::Uuid, Error>)
        requires
            old(self).wf(),
        ensures
            final(self).wf(),
            trigger_result(*final(self), *old(self), job_name@, "manual"@, now, r),
    {
        self.trigger_job_with_source(job_name, "manual", now)
    }

    /// Request a run of a job now, started by `source`: the first job listed
    /// under the name runs; an unknown name is an error.
    pub fn trigger_job_with_source(&mut self, job_name: &str, source: &str, now: i64) -> (r: Result<
        uuid::Uuid,
        Error,
    >)
        requires
            old(self).wf(),
        ensures
            final(self).wf(),
            trigger_result(*final(self), *old(self), job_name@, source@, now, r),
    {
        let job = match self.config.get_job(job_name) {
            Some(job) => job.duplicate(),
            None => {
                return Err(Error::job_not_found(String::from_str(job_name)));
            },
        };
        let id = self.spawn_job_execution(String::from_str(job_name), job, source, now);
        Ok(id)
    }

    /// Request, at `now`, a run of each enabled job marked `run_on_startup`,
    /// in order. Returns the runs' identifiers.
    pub fn run_startup_jobs(&mut self, now: i64) -> (r: Vec<uuid::Uuid>)
        requires
            old(self).wf(),
        ensures
            final(self).wf(),
            ({
                let names = startup_entries(old(self).config.jobs@);
                let n = old(self).waiting@.len();
                &&& r@.len() == names.len()
                &&& final(self).waiting@.len() == n + names.len()
                &&& final(self).waiting@.take(n as int) == old(self).waiting@
                &&& forall|k: int|
                    0 <= k < names.len() ==> requested(
                        #[trigger] final(self).waiting@[n + k],
                        r@[k],
                        names[k].0@,
                        "startup"@,
                        now,
                        old(self).config.settings,
                        old(self).zone_name(),
                    )
            }),
            *final(self) == (Scheduler { waiting: final(self).waiting, ..*old(self) }),
    {
        let mut names: Vec<String> = Vec::new();
        let mut i: usize = 0;
        while i < self.config.jobs.len()
            invariant
                i <= self.config.jobs@.len(),
                names@.len() == startup_entries(self.config.jobs@.take(i as int)).len(),
                forall|k: int|
                    0 <= k < names@.len() ==> #[trigger] names@[k]@ == startup_entries(
                        self.config.jobs@.take(i as int),
                    )[k].0@,
            decreases self.config.jobs@.len() - i,
        {
            assert(self.config.jobs@.take(i + 1).drop_last() =~= self.config.jobs@.take(i as int));
            let job = &self.config.jobs[i].1;
            if job.enabled && job.run_on_startup {
                names.push(self.config.jobs[i].0.clone());
            }
            i = i + 1;
        }
        assert(self.config.jobs@.take(self.config.jobs@.len() as int) =~= self.config.jobs@);
        let ghost entries = self.config.jobs@;
        let ghost w0 = self.waiting@;
        let mut ids: Vec<uuid::Uuid> = Vec::new();
        let mut k: usize = 0;
        while k < names.len()
            invariant
                self.wf(),
                entries == self.config.jobs@,
                k <= names@.len(),
                names@.len() == startup_entries(entries).len(),
                forall|j: int| 0 <= j < names@.len() ==> #[trigger] names@[j]@ == startup_entries(entries)[j].0@,
                ids@.len() == k,
                self.waiting@.len() == w0.len() + k,
                self.waiting@.take(w0.len() as int) == w0,
                forall|j: int|
                    0 <= j < k ==> requested(
                        #[trigger] self.waiting@[w0.len() + j],
                        ids@[j],
                        startup_entries(entries)[j].0@,
                        "startup"@,
                        now,
                        old(self).config.settings,
                        old(self).zone_name(),
                    ),
                *self == (Scheduler { waiting: self.waiting, ..*old(self) }),
            decreases names@.len() - k,
        {
            let ghost before = self.waiting@;
            proof {
                lemma_startup_listed(entries, k as int);
                let i = choose|i: int|
                    0 <= i < entries.len() && #[trigger] entries[i] == startup_entries(entries)[k as int];
                assert(entries[i].0@ == names@[k as int]@);
                assert(first_job_index(entries, names@[k as int]@) is Some);
            }
            let res = self.trigger_job_with_source(names[k].as_str(), "startup", now);
            assert(res is Ok);
            match res {
                Ok(id) => {
                    ids.push(id);
                },
                Err(_) => {},
            }
            proof {
                assert(self.waiting@.take(w0.len() as int) =~= w0) by {
                    assert(self.waiting@ == before.push(self.waiting@.last()));
                }
                assert forall|j: int| 0 <= j < k + 1 implies requested(
                    #[trigger] self.waiting@[w0.len() + j],
                    ids@[j],
                    startup_entries(entries)[j].0@,
                    "startup"@,
                    now,
                    old(self).config.settings,
                    old(self).zone_name(),
                ) by {
                    if j < k {
                        assert(self.waiting@[w0.len() + j] == before[w0.len() + j]);
                    }
                }
            }
            k = k + 1;
        }
        ids
    }

    /// Handle a message at `now`: a trigger request runs the job by hand, a
    /// stop request marks a running job stopped, a shutdown request sets the
    /// shutdown flag; the other requests are left to the caller.
    pub fn handle_message(&mut self, msg: SchedulerMessage, now: i64) -> (r: MessageOutcome)
        requires
            old(self).wf(),
        ensures
            final(self).wf(),
            match msg {
                SchedulerMessage::TriggerJob { job_name } => r matches MessageOutcome::Triggered(
                    res,
                ) && trigger_result(*final(self), *old(self), job_name@, "manual"@, now, res),
                SchedulerMessage::ReloadConfig => r is ReloadRequested && *final(self) == *old(self),
                SchedulerMessage::GetStatus => r is StatusRequested && *final(self) == *old(self),
                SchedulerMessage::StopJob { job_name } => r matches MessageOutcome::StopRequested {
                    job_name: n,
                    execution_id,
                } && n == job_name && stopped_from(
                    final(self).state,
                    old(self).state,
                    job_name@,
                    execution_id,
                ) && *final(self) == (Scheduler { state: final(self).state, ..*old(self) }),
                SchedulerMessage::Shutdown => r is ShutdownRequested && *final(self) == (Scheduler {
                    shutdown: true,
                    ..*old(self)
                }),
            },
    {
        match msg {
            SchedulerMessage::TriggerJob { job_name } => {
                let res = self.trigger_job(job_name.as_str(), now);
                MessageOutcome::Triggered(res)
            },
            SchedulerMessage::ReloadConfig => MessageOutcome::ReloadRequested,
            SchedulerMessage::GetStatus => MessageOutcome::StatusRequested,
            SchedulerMessage::StopJob { job_name } => {
                let execution_id = self.state.stop_job(job_name.as_str());
                proof {
                    lemma_names_kept(old(self).state.jobs@, self.state.jobs@);
                }
                MessageOutcome::StopRequested { job_name, execution_id }
            },
            SchedulerMessage::Shutdown => {
                self.shutdown = true;
                MessageOutcome::ShutdownRequested
            },
        }
    }

    /// Whether every running job has finished.
    pub fn all_jobs_finished(&self) -> (r: bool)
        ensures
            r == (self.state.running_jobs == 0),
    {
        self.state.running_jobs == 0
    }

    /// Execute, at `now`, every trigger that is due, earliest first; a
    /// trigger queued again by one of them is executed too when it is due.
    pub fn process_due_triggers(&mut self, now: i64)
        requires
            old(self).wf(),
        ensures
            final(self).wf(),
            final(self).trigger_queue@.len() == 0 || final(self).trigger_queue@[0].scheduled_at
                > now,
            (old(self).trigger_queue@.len() == 0 || old(self).trigger_queue@[0].scheduled_at > now)
                ==> *final(self) == *old(self),
            exists|steps: Seq<Scheduler>|
                {
                    &&& steps.len() >= 1
                    &&& steps[0] == *old(self)
                    &&& steps.last() == *final(self)
                    &&& forall|i: int|
                        0 <= i < steps.len() - 1 ==> #[trigger] due_step(steps[i], steps[i + 1], now)
                },
            final(self).waiting@.len() >= old(self).waiting@.len(),
            final(self).waiting@.take(old(self).waiting@.len() as int) == old(self).waiting@,
            final(self).state == (SchedulerState { jobs: final(self).state.jobs, ..old(self).state }),
            *final(self) == (Scheduler {
                state: final(self).state,
                trigger_queue: final(self).trigger_queue,
                waiting: final(self).waiting,
                ..*old(self)
            }),
    {
        let ghost mut steps: Seq<Scheduler> = seq![*self];
        loop
            invariant
                self.wf(),
                steps.len() >= 1,
                steps[0] == *old(self),
                steps.last() == *self,
                forall|i: int|
                    0 <= i < steps.len() - 1 ==> #[trigger] due_step(steps[i], steps[i + 1], now),
                (old(self).trigger_queue@.len() == 0 || old(self).trigger_queue@[0].scheduled_at
                    > now) ==> *self == *old(self),
                self.waiting@.len() >= old(self).waiting@.len(),
                self.waiting@.take(old(self).waiting@.len() as int) == old(self).waiting@,
                self.state == (SchedulerState { jobs: self.state.jobs, ..old(self).state }),
                *self == (Scheduler {
                    state: self.state,
                    trigger_queue: self.trigger_queue,
                    waiting: self.waiting,
                    ..*old(self)
                }),
            ensures
                self.trigger_queue@.len() == 0 || self.trigger_queue@[0].scheduled_at > now,
            decreases due_weight(queue_keys(self.trigger_queue@), now),
        {
            let ghost ks0 = queue_keys(self.trigger_queue@);
            let ghost w0 = self.waiting@;
            let ghost before = *self;
            match self.pop_due(now) {
                None => {
                    break ;
                },
                Some(t) => {
                    let ghost ks1 = queue_keys(self.trigger_queue@);
                    proof {
                        assert(ks1 =~= ks0.drop_first());
                        assert(ks0[0].1 == t.scheduled_at);
                    }
                    let ghost mid = *self;
                    let r = self.execute_trigger(t, now);
                    proof {
                        assert(executed_from(*self, mid, t, now, r));
                        assert(mid.trigger_queue@ == before.trigger_queue@.drop_first());
                        assert(due_step(before, *self, now));
                        let old_steps = steps;
                        steps = steps.push(*self);
                        assert forall|i: int| 0 <= i < steps.len() - 1 implies #[trigger] due_step(
                            steps[i],
                            steps[i + 1],
                            now,
                        ) by {
                            if i < old_steps.len() - 1 {
                                assert(steps[i] == old_steps[i]);
                                assert(steps[i + 1] == old_steps[i + 1]);
                            } else {
                                assert(steps[i] == before);
                            }
                        }
                        let ks2 = queue_keys(self.trigger_queue@);
                        if ks2 != ks1 {
                            let n = next_run_at(t.job, old(self).zone_name(), now)->0;
                            lemma_insert_at_bounds(ks1, n);
                            lemma_weight_insert(ks1, insert_at(ks1, n), (t.job_name@, n), now);
                        }
                        assert(self.waiting@.take(old(self).waiting@.len() as int) =~= old(self).waiting@) by {
                            assert(w0.take(old(self).waiting@.len() as int) == old(self).waiting@);
                            if self.waiting@ != w0 {
                                assert(self.waiting@ == w0.push(self.waiting@.last()));
                            }
                        }
                    }
                },
            }
        }
    }

    /// Put a trigger in the queue after every trigger that is not later
    /// than it.
    pub fn push_trigger(&mut self, trigger: JobTrigger)
        requires
            old(self).wf(),
            configured_in(old(self).config.jobs@, trigger),
        ensures
            final(self).wf(),
            final(self).trigger_queue@ == old(self).trigger_queue@.insert(
                insert_at(queue_keys(old(self).trigger_queue@), trigger.scheduled_at),
                trigger,
            ),
            queue_keys(final(self).trigger_queue@) == insert_key(
                queue_keys(old(self).trigger_queue@),
                trigger_key(trigger),
            ),
            *final(self) == (Scheduler { trigger_queue: final(self).trigger_queue, ..*old(self) }),
    {
        let ghost old_q = self.trigger_queue@;
        let ghost entries = self.config.jobs@;
        insert_sorted(&mut self.trigger_queue, trigger);
        proof {
            let q = self.trigger_queue@;
            let p = insert_at(queue_keys(old_q), trigger.scheduled_at);
            lemma_insert_at_bounds(queue_keys(old_q), trigger.scheduled_at);
            assert forall|i: int| 0 <= i < q.len() implies configured_in(
                entries,
                #[trigger] q[i],
            ) by {
                if i < p {
                    assert(q[i] == old_q[i]);
                } else if i > p {
                    assert(q[i] == old_q[i - 1]);
                }
            }
        }
    }

    /// The first trigger, when it is due at `now`; it leaves the queue.
    pub fn pop_due(&mut self, now: i64) -> (r: Option<JobTrigger>)
        requires
            old(self).wf(),
        ensures
            final(self).wf(),
            if old(self).trigger_queue@.len() > 0 && old(self).trigger_queue@[0].scheduled_at
                <= now {
                &&& r == Some(old(self).trigger_queue@[0])
                &&& final(self).trigger_queue@ == old(self).trigger_queue@.drop_first()
            } else {
                &&& r is None
                &&& *final(self) == *old(self)
            },
            r matches Some(t) ==> configured_in(final(self).config.jobs@, t),
            *final(self) == (Scheduler { trigger_queue: final(self).trigger_queue, ..*old(self) }),
    {
        if self.trigger_queue.len() > 0 && self.trigger_queue[0].scheduled_at <= now {
            let ghost old_q = self.trigger_queue@;
            let t = self.trigger_queue.remove(0);
            proof {
                assert(self.trigger_queue@ =~= old_q.drop_first());
                assert(configured_in(self.config.jobs@, old_q[0]));
                let ks = queue_keys(self.trigger_queue@);
                assert forall|i: int, j: int| 0 <= i <= j < ks.len() implies #[trigger] ks[i].1
                    <= #[trigger] ks[j].1 by {
                    assert(ks[i] == queue_keys(old_q)[i + 1]);
                    assert(ks[j] == queue_keys(old_q)[j + 1]);
                }
                assert forall|i: int| 0 <= i < self.trigger_queue@.len() implies configured_in(
                    self.config.jobs@,
                    #[trigger] self.trigger_queue@[i],
                ) by {
                    assert(self.trigger_queue@[i] == old_q[i + 1]);
                }
            }
            Some(t)
        } else {
            None
        }
    }

    /// How long to sleep before the next trigger is due, in milliseconds: a
    /// minute when nothing is scheduled.
    pub fn sleep_ms(&self, now: i64) -> (r: u64)
        ensures
            r == if self.trigger_queue@.len() == 0 {
                60_000
            } else {
                ms_until(self.trigger_queue@[0].scheduled_at, now)
            },
    {
        if self.trigger_queue.len() == 0 {
            60_000
        } else {
            let ms = self.trigger_queue[0].ms_until_due_at(now);
            ms as u64
        }
    }
}

/// Adds to the job states, in order, an entry for each listed job (keeping
/// what `previous` knew of a job of that name), and queues a trigger for
/// each enabled one that has a next run.
fn plan_jobs(
    state: &mut SchedulerState,
    queue: &mut Vec<JobTrigger>,
    entries: &Vec<(String, Job)>,
    previous: &Vec<ScheduledJob>,
    zone: &Zone,
    now: i64,
)
    requires
        sorted_keys(queue_keys(old(queue)@)),
        forall|k: int|
            0 <= k < old(queue)@.len() ==> configured_in(entries@, #[trigger] old(queue)@[k]),
        names_distinct(old(state).jobs@),
        old(state).enabled_jobs <= old(state).total_jobs,
        old(state).total_jobs + entries@.len() <= usize::MAX,
    ensures
        final(state).jobs@ == jobs_planned(old(state).jobs@, entries@, previous@, zone@, now),
        final(state).total_jobs == old(state).total_jobs + entries@.len(),
        final(state).enabled_jobs == old(state).enabled_jobs + enabled_count(entries@),
        names_distinct(final(state).jobs@),
        final(state).enabled_jobs <= final(state).total_jobs,
        *final(state) == (SchedulerState {
            jobs: final(state).jobs,
            total_jobs: final(state).total_jobs,
            enabled_jobs: final(state).enabled_jobs,
            ..*old(state)
        }),
        sorted_keys(queue_keys(final(queue)@)),
        queue_keys(final(queue)@) == keys_planned(queue_keys(old(queue)@), entries@, zone@, now),
        forall|k: int|
            0 <= k < final(queue)@.len() ==> configured_in(entries@, #[trigger] final(queue)@[k]),
{
    let ghost s0 = *state;
    let ghost ks0 = queue_keys(queue@);
    let mut i: usize = 0;
    while i < entries.len()
        invariant
            i <= entries@.len(),
            s0.total_jobs + entries@.len() <= usize::MAX,
            state.jobs@ == jobs_planned(s0.jobs@, entries@.take(i as int), previous@, zone@, now),
            state.total_jobs == s0.total_jobs + i,
            state.enabled_jobs == s0.enabled_jobs + enabled_count(entries@.take(i as int)),
            state.enabled_jobs <= state.total_jobs,
            names_distinct(state.jobs@),
            *state == (SchedulerState {
                jobs: state.jobs,
                total_jobs: state.total_jobs,
                enabled_jobs: state.enabled_jobs,
                ..s0
            }),
            sorted_keys(queue_keys(queue@)),
            queue_keys(queue@) == keys_planned(ks0, entries@.take(i as int), zone@, now),
            forall|k: int| 0 <= k < queue@.len() ==> configured_in(entries@, #[trigger] queue@[k]),
        decreases entries@.len() - i,
    {
        assert(entries@.take(i + 1).drop_last() =~= entries@.take(i as int));
        assert(entries@.take(i + 1).last() == entries@[i as int]);
        let name = &entries[i].0;
        let job = &entries[i].1;
        let next = if job.enabled {
            job.next_run_after(zone, now)
        } else {
            None
        };
        let mut sj = ScheduledJob::new(name.clone(), job.schedule.clone(), job.enabled).with_next_run(
            next,
        );
        match position_of_job(previous, name.as_str()) {
            Some(k) => {
                let before = &previous[k];
                sj.is_running = before.is_running;
                sj.last_run = before.last_run;
                sj.last_status = match &before.last_status {
                    Some(st) => Some(st.duplicate()),
                    None => None,
                };
                sj.run_count = before.run_count;
                sj.failure_count = before.failure_count;
            },
            None => {},
        }
        assert(sj == carried_over(planned_job(entries@[i as int], zone@, now), previous@));
        state.add_job(sj);
        if job.enabled {
            match next {
                Some(n) => {
                    let ghost q0 = queue@;
                    let t = JobTrigger::new(name.clone(), n, job.duplicate());
                    assert(configured_in(entries@, t)) by {
                        assert(entries@[i as int].0@ == t.job_name@);
                    }
                    insert_sorted(queue, t);
                    proof {
                        let q = queue@;
                        let p = insert_at(queue_keys(q0), n);
                        lemma_insert_at_bounds(queue_keys(q0), n);
                        assert forall|k: int| 0 <= k < q.len() implies configured_in(
                            entries@,
                            #[trigger] q[k],
                        ) by {
                            if k < p {
                                assert(q[k] == q0[k]);
                            } else if k > p {
                                assert(q[k] == q0[k - 1]);
                            }
                        }
                    }
                },
                None => {},
            }
        }
        i = i + 1;
    }
    assert(entries@.take(entries@.len() as int) =~= entries@);
}

/// The error text of a run that exited with a code other than 0.
fn exit_message_of(code: i32) -> (r: String)
    ensures
        r@ == exit_message(code),
{
    let mut out: Vec<char> = Vec::new();
    push_str(&mut out, "Exit code: ");
    push_signed_decimal(&mut out, code as i64);
    string_of(out.as_slice())
}

/// Insert a trigger after every trigger of a sorted queue that is not later
/// than it.
fn insert_sorted(q: &mut Vec<JobTrigger>, t: JobTrigger)
    requires
        sorted_keys(queue_keys(old(q)@)),
    ensures
        sorted_keys(queue_keys(final(q)@)),
        final(q)@ == old(q)@.insert(insert_at(queue_keys(old(q)@), t.scheduled_at), t),
        queue_keys(final(q)@) == insert_key(queue_keys(old(q)@), trigger_key(t)),
{
    let ghost ks = queue_keys(q@);
    let mut i: usize = q.len();
    assert(ks.take(i as int) =~= ks);
    while i > 0 && q[i - 1].scheduled_at > t.scheduled_at
        invariant
            i <= q@.len(),
            q@ == old(q)@,
            ks == queue_keys(q@),
            insert_at(ks, t.scheduled_at) == insert_at(ks.take(i as int), t.scheduled_at),
            forall|k: int| i <= k < ks.len() ==> #[trigger] ks[k].1 > t.scheduled_at,
        decreases i,
    {
        assert(ks.take(i as int).drop_last() =~= ks.take(i - 1));
        i = i - 1;
    }
    proof {
        if i > 0 {
            assert(ks.take(i as int).last() == ks[i - 1]);
        }
        assert(insert_at(ks.take(i as int), t.scheduled_at) == i);
    }
    q.insert(i, t);
    proof {
        let nk = queue_keys(q@);
        assert(nk =~= ks.insert(i as int, trigger_key(t)));
        assert forall|a: int, b: int| 0 <= a <= b < nk.len() implies #[trigger] nk[a].1
            <= #[trigger] nk[b].1 by {
            if a < i && b < i {
                assert(nk[a] == ks[a] && nk[b] == ks[b]);
            } else if a < i && b == i {
                assert(nk[a] == ks[a]);
                assert(ks[a].1 <= ks[i - 1].1);
            } else if a < i {
                assert(nk[a] == ks[a] && nk[b] == ks[b - 1]);
            } else if a == i && b > i {
                assert(nk[b] == ks[b - 1]);
            } else if a > i {
                assert(nk[a] == ks[a - 1] && nk[b] == ks[b - 1]);
            }
        }
    }
}

} // verus!
