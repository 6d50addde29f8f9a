//! Scheduler state: what is known of each job and of the executions so far.
//! Instants are milliseconds since the Unix epoch.

use crate::clock::{clock_reading, now_millis};
use crate::config::job::{is_failure, JobExecution, JobStatus};
use crate::text::str_eq;
use std::collections::VecDeque;
use vstd::prelude::*;

verus! {

/// Information about a scheduled job
#[derive(Debug, Clone)]
pub struct ScheduledJob {
    /// Job name
    pub name: String,
    /// Whether the job is enabled
    pub enabled: bool,
    /// Cron schedule expression
    pub schedule: String,
    /// Next scheduled run time
    pub next_run: Option<i64>,
    /// Last run time
    pub last_run: Option<i64>,
    /// Last run status
    pub last_status: Option<JobStatus>,
    /// Number of times this job has run
    pub run_count: u64,
    /// Number of failures
    pub failure_count: u64,
    /// Whether the job is currently running
    pub is_running: bool,
    /// Current execution ID (if running)
    pub current_execution_id: Option<uuid::Uuid>,
}

/// The job after one more completed run with the given status.
pub open spec fn completed(j: ScheduledJob, status: JobStatus, next_run: Option<i64>) -> ScheduledJob {
    ScheduledJob {
        is_running: false,
        current_execution_id: None,
        run_count: (j.run_count + 1) as u64,
        next_run,
        failure_count: if is_failure(status) {
            (j.failure_count + 1) as u64
        } else {
            j.failure_count
        },
        last_status: Some(status),
        ..j
    }
}

/// The counters of a job can take one more run with the given status.
pub open spec fn can_complete(j: ScheduledJob, status: JobStatus) -> bool {
    j.run_count < u64::MAX && (is_failure(status) ==> j.failure_count < u64::MAX)
}

impl ScheduledJob {
    /// Create a new scheduled job info
    pub fn new(name: String, schedule: String, enabled: bool) -> (r: ScheduledJob)
        ensures
            r == (ScheduledJob {
                name,
                enabled,
                schedule,
                next_run: None,
                last_run: None,
                last_status: None,
                run_count: 0,
                failure_count: 0,
                is_running: false,
                current_execution_id: None,
            }),
    {
        ScheduledJob {
            name,
            enabled,
            schedule,
            next_run: None,
            last_run: None,
            last_status: None,
            run_count: 0,
            failure_count: 0,
            is_running: false,
            current_execution_id: None,
        }
    }

    /// Update with next run time
    pub fn with_next_run(self, next: Option<i64>) -> (r: ScheduledJob)
        ensures
            r == (ScheduledJob { next_run: next, ..self }),
    {
        let mut s = self;
        s.next_run = next;
        s
    }

    /// Mark as started now.
    pub fn mark_started(&mut self, execution_id: uuid::Uuid)
        ensures
            final(self).last_run matches Some(t) && clock_reading(t),
            *final(self) == (ScheduledJob {
                is_running: true,
                current_execution_id: Some(execution_id),
                last_run: final(self).last_run,
                ..*old(self)
            }),
    {
        let now = now_millis();
        self.mark_started_at(execution_id, now);
    }

    /// Mark as started at `now`.
    pub fn mark_started_at(&mut self, execution_id: uuid::Uuid, now: i64)
        ensures
            *final(self) == (ScheduledJob {
                is_running: true,
                current_execution_id: Some(execution_id),
                last_run: Some(now),
                ..*old(self)
            }),
    {
        self.is_running = true;
        self.current_execution_id = Some(execution_id);
        self.last_run = Some(now);
    }

    /// Mark as completed: one more run, one more failure if the status is a
    /// failure, and the next run time.
    pub fn mark_completed(&mut self, status: JobStatus, next_run: Option<i64>)
        requires
            can_complete(*old(self), status),
        ensures
            *final(self) == completed(*old(self), status, next_run),
    {
        self.is_running = false;
        self.current_execution_id = None;
        self.run_count = self.run_count + 1;
        self.next_run = next_run;
        if status.is_failure() {
            self.failure_count = self.failure_count + 1;
        }
        self.last_status = Some(status);
    }
}

/// Overall scheduler state. Jobs are kept under their names; the history
/// holds the most recent execution first.
#[derive(Debug, Clone)]
pub struct SchedulerState {
    /// Scheduler start time
    pub started_at: i64,
    /// Current time (for reference)
    pub current_time: i64,
    /// Uptime in seconds
    pub uptime_seconds: i64,
    /// Whether the scheduler is running
    pub is_running: bool,
    /// Number of jobs configured
    pub total_jobs: usize,
    /// Number of enabled jobs
    pub enabled_jobs: usize,
    /// Number of currently running jobs
    pub running_jobs: usize,
    /// Total executions since start
    pub total_executions: u64,
    /// Total failures since start
    pub total_failures: u64,
    /// Job information
    pub jobs: Vec<ScheduledJob>,
    /// Recent execution history, most recent first
    pub recent_history: VecDeque<JobExecution>,
}

/// The index of the first job with the given name, if any.
pub open spec fn job_index(jobs: Seq<ScheduledJob>, name: Seq<char>) -> Option<int> {
    if exists|i: int| 0 <= i < jobs.len() && #[trigger] jobs[i].name@ == name {
        Some(
            choose|i: int|
                0 <= i < jobs.len() && #[trigger] jobs[i].name@ == name && forall|k: int|
                    0 <= k < i ==> #[trigger] jobs[k].name@ != name,
        )
    } else {
        None
    }
}

/// No two jobs share a name.
pub open spec fn names_distinct(jobs: Seq<ScheduledJob>) -> bool {
    forall|i: int, k: int|
        0 <= i < jobs.len() && 0 <= k < jobs.len() && i != k ==> #[trigger] jobs[i].name@
            != #[trigger] jobs[k].name@
}

/// Jobs that keep their names, position by position, keep them distinct.
pub proof fn lemma_names_kept(before: Seq<ScheduledJob>, after: Seq<ScheduledJob>)
    requires
        names_distinct(before),
        after.len() == before.len(),
        forall|k: int| 0 <= k < after.len() ==> #[trigger] after[k].name@ == before[k].name@,
    ensures
        names_distinct(after),
{
    assert forall|a: int, b: int|
        0 <= a < after.len() && 0 <= b < after.len() && a != b implies #[trigger] after[a].name@
        != #[trigger] after[b].name@ by {
        assert(after[a].name@ == before[a].name@);
        assert(after[b].name@ == before[b].name@);
    }
}

/// The jobs after adding `job`: it replaces the job with its name, or is
/// appended when there is none.
pub open spec fn jobs_with(jobs: Seq<ScheduledJob>, job: ScheduledJob) -> Seq<ScheduledJob> {
    match job_index(jobs, job.name@) {
        Some(i) => jobs.update(i, job),
        None => jobs.push(job),
    }
}

/// The history with at most `quota` entries for the job `name` (the most
/// recent ones) and every entry of other jobs, in order.
pub open spec fn limit_job(h: Seq<JobExecution>, name: Seq<char>, quota: nat) -> Seq<JobExecution>
    decreases h.len(),
{
    if h.len() == 0 {
        h
    } else if h[0].job_name@ == name {
        if quota == 0 {
            limit_job(h.drop_first(), name, 0)
        } else {
            seq![h[0]] + limit_job(h.drop_first(), name, (quota - 1) as nat)
        }
    } else {
        seq![h[0]] + limit_job(h.drop_first(), name, quota)
    }
}

/// The history after recording `execution` of job `name`: the execution
/// comes first, the job keeps its `per_job` most recent entries, and the
/// whole history its `total` most recent ones.
pub open spec fn history_after(
    h: Seq<JobExecution>,
    execution: JobExecution,
    name: Seq<char>,
    per_job: nat,
    total: nat,
) -> Seq<JobExecution> {
    let limited = limit_job(seq![execution] + h, name, per_job);
    if limited.len() > total {
        limited.take(total as int)
    } else {
        limited
    }
}

/// The number of entries of job `name` in a history.
pub open spec fn count_of(h: Seq<JobExecution>, name: Seq<char>) -> nat
    decreases h.len(),
{
    if h.len() == 0 {
        0
    } else {
        (if h[0].job_name@ == name {
            1nat
        } else {
            0nat
        }) + count_of(h.drop_first(), name)
    }
}

/// The jobs that are due at `now`: enabled, not running, and with a next
/// run time not later than `now`; in order.
pub open spec fn due_entries(jobs: Seq<ScheduledJob>, now: i64) -> Seq<ScheduledJob>
    decreases jobs.len(),
{
    if jobs.len() == 0 {
        Seq::empty()
    } else if is_due(jobs.last(), now) {
        due_entries(jobs.drop_last(), now).push(jobs.last())
    } else {
        due_entries(jobs.drop_last(), now)
    }
}

/// A job that is due at `now`.
pub open spec fn is_due(j: ScheduledJob, now: i64) -> bool {
    j.enabled && !j.is_running && (j.next_run matches Some(t) && t <= now)
}

/// Whole seconds between two instants, truncated toward zero (as
/// `chrono::Duration::num_seconds`).
pub open spec fn whole_seconds(ms: int) -> int {
    if ms >= 0 {
        ms / 1000
    } else {
        -((-ms) / 1000)
    }
}

/// The state `new` is `old` after a failed run of job `name` was set to be
/// tried again as attempt `attempt`: the job is no longer running, its
/// status says it is being retried, and the running count goes down (not
/// below zero). Nothing changes for a name no job has.
pub open spec fn retried_from(new: SchedulerState, old: SchedulerState, name: Seq<char>, attempt: u32) -> bool {
    match job_index(old.jobs@, name) {
        Some(i) => {
            &&& new == (SchedulerState {
                jobs: new.jobs,
                running_jobs: if old.running_jobs > 0 {
                    (old.running_jobs - 1) as usize
                } else {
                    0
                },
                ..old
            })
            &&& new.jobs@ == old.jobs@.update(
                i,
                ScheduledJob {
                    is_running: false,
                    current_execution_id: None,
                    last_status: Some(JobStatus::Retrying { attempt }),
                    ..old.jobs@[i]
                },
            )
        },
        None => new == old,
    }
}

/// The state `new` is `old` after a request to stop job `name`, answered
/// with `r`: a running job is marked not running and `r` is the execution
/// it was running; otherwise nothing changes and `r` is `None`.
pub open spec fn stopped_from(
    new: SchedulerState,
    old: SchedulerState,
    name: Seq<char>,
    r: Option<uuid::Uuid>,
) -> bool {
    match job_index(old.jobs@, name) {
        Some(i) => if old.jobs@[i].is_running {
            &&& r == old.jobs@[i].current_execution_id
            &&& new == (SchedulerState { jobs: new.jobs, ..old })
            &&& new.jobs@ == old.jobs@.update(
                i,
                ScheduledJob { is_running: false, current_execution_id: None, ..old.jobs@[i] },
            )
        } else {
            r is None && new == old
        },
        None => r is None && new == old,
    }
}

/// The state `new` is `old` after job `name` started at `now` as execution
/// `id`: the job is marked running and counted as running. Nothing changes
/// for a name no job has.
pub open spec fn started_from(
    new: SchedulerState,
    old: SchedulerState,
    name: Seq<char>,
    id: uuid::Uuid,
    now: i64,
) -> bool {
    match job_index(old.jobs@, name) {
        Some(i) => {
            &&& new == (SchedulerState {
                jobs: new.jobs,
                running_jobs: (old.running_jobs + 1) as usize,
                ..old
            })
            &&& new.jobs@ == old.jobs@.update(
                i,
                ScheduledJob {
                    is_running: true,
                    current_execution_id: Some(id),
                    last_run: Some(now),
                    ..old.jobs@[i]
                },
            )
        },
        None => new == old,
    }
}

/// The state `new` is `old` after `execution` of job `name` finished with
/// `status`: the job (if there is one of that name) gets one more run and
/// its next run time, the running count goes down (not below zero) and the
/// totals count the execution; the execution goes first in the history,
/// which then keeps at most `per_job` entries of this job and `total`
/// entries in all.
pub open spec fn completed_from(
    new: SchedulerState,
    old: SchedulerState,
    name: Seq<char>,
    status: JobStatus,
    execution: JobExecution,
    next_run: Option<i64>,
    per_job: nat,
    total: nat,
) -> bool {
    &&& match job_index(old.jobs@, name) {
        Some(i) => {
            &&& new.jobs@ == old.jobs@.update(i, completed(old.jobs@[i], status, next_run))
            &&& new.running_jobs == if old.running_jobs > 0 {
                (old.running_jobs - 1) as usize
            } else {
                0
            }
            &&& new.total_executions == old.total_executions + 1
            &&& new.total_failures == old.total_failures + if is_failure(status) {
                1int
            } else {
                0int
            }
        },
        None => {
            &&& new.jobs == old.jobs
            &&& new.running_jobs == old.running_jobs
            &&& new.total_executions == old.total_executions
            &&& new.total_failures == old.total_failures
        },
    }
    &&& new.recent_history@ == history_after(old.recent_history@, execution, name, per_job, total)
    &&& new == (SchedulerState {
        jobs: new.jobs,
        running_jobs: new.running_jobs,
        total_executions: new.total_executions,
        total_failures: new.total_failures,
        recent_history: new.recent_history,
        ..old
    })
}

/// When a job has the name, `job_index` gives the first such job.
pub proof fn lemma_job_index(jobs: Seq<ScheduledJob>, name: Seq<char>)
    ensures
        job_index(jobs, name) matches Some(k) ==> {
            &&& 0 <= k < jobs.len()
            &&& jobs[k].name@ == name
            &&& forall|j: int| 0 <= j < k ==> #[trigger] jobs[j].name@ != name
        },
        job_index(jobs, name) is None ==> forall|j: int|
            0 <= j < jobs.len() ==> #[trigger] jobs[j].name@ != name,
{
    if exists|i: int| 0 <= i < jobs.len() && #[trigger] jobs[i].name@ == name {
        let i = choose|i: int| 0 <= i < jobs.len() && #[trigger] jobs[i].name@ == name;
        lemma_first_named(jobs, name, i);
    }
}

proof fn lemma_first_named(jobs: Seq<ScheduledJob>, name: Seq<char>, i: int)
    requires
        0 <= i < jobs.len(),
        jobs[i].name@ == name,
    ensures
        exists|m: int|
            0 <= m < jobs.len() && #[trigger] jobs[m].name@ == name && forall|j: int|
                0 <= j < m ==> #[trigger] jobs[j].name@ != name,
    decreases i,
{
    if exists|j: int| 0 <= j < i && #[trigger] jobs[j].name@ == name {
        let j = choose|j: int| 0 <= j < i && #[trigger] jobs[j].name@ == name;
        lemma_first_named(jobs, name, j);
    } else {
        assert(forall|j: int| 0 <= j < i ==> #[trigger] jobs[j].name@ != name);
    }
}

/// A run's life: when job `name` starts as execution `id` and that
/// execution then completes, the history's newest entry is that execution,
/// the job is no longer running and has one more run, and the running count
/// is back where it was.
pub proof fn law_run_lifecycle(
    s0: SchedulerState,
    s1: SchedulerState,
    s2: SchedulerState,
    name: Seq<char>,
    id: uuid::Uuid,
    now: i64,
    status: JobStatus,
    execution: JobExecution,
    next_run: Option<i64>,
    per_job: nat,
    total: nat,
)
    requires
        started_from(s1, s0, name, id, now),
        completed_from(s2, s1, name, status, execution, next_run, per_job, total),
        execution.id == id,
        execution.job_name@ == name,
        per_job > 0,
        total > 0,
        job_index(s0.jobs@, name) matches Some(k) ==> can_complete(s0.jobs@[k], status),
        s0.running_jobs < usize::MAX,
    ensures
        s2.recent_history@[0].id == id,
        job_index(s0.jobs@, name) matches Some(k) ==> {
            &&& !s2.jobs@[k].is_running
            &&& s2.jobs@[k].current_execution_id is None
            &&& s2.jobs@[k].last_run == Some(now)
            &&& s2.jobs@[k].run_count == s0.jobs@[k].run_count + 1
            &&& s2.running_jobs == s0.running_jobs
        },
{
    law_history_bounded(s1.recent_history@, execution, name, per_job, total);
    match job_index(s0.jobs@, name) {
        Some(k) => {
            lemma_job_index(s0.jobs@, name);
            lemma_job_index(s1.jobs@, name);
            assert(s1.jobs@.len() == s0.jobs@.len());
            assert(forall|i: int| 0 <= i < s0.jobs@.len() ==> #[trigger] s1.jobs@[i].name@ == s0.jobs@[i].name@);
            assert(s1.jobs@[k].name@ == name);
            match job_index(s1.jobs@, name) {
                Some(k1) => {
                    if k1 < k {
                        assert(s0.jobs@[k1].name@ == s1.jobs@[k1].name@);
                    } else if k1 > k {
                        assert(s1.jobs@[k].name@ != name);
                    }
                },
                None => {
                    assert(s1.jobs@[k].name@ != name);
                },
            }
            assert(job_index(s1.jobs@, name) == job_index(s0.jobs@, name));
        },
        None => {},
    }
}

/// Keeping at most `quota` entries of a job leaves at most `quota` of them.
pub proof fn lemma_limit_job_count(h: Seq<JobExecution>, name: Seq<char>, quota: nat)
    ensures
        count_of(limit_job(h, name, quota), name) <= quota,
    decreases h.len(),
{
    if h.len() > 0 {
        let rest = h.drop_first();
        if h[0].job_name@ == name {
            if quota == 0 {
                lemma_limit_job_count(rest, name, 0);
            } else {
                let tail = limit_job(rest, name, (quota - 1) as nat);
                lemma_limit_job_count(rest, name, (quota - 1) as nat);
                assert((seq![h[0]] + tail).drop_first() =~= tail);
            }
        } else {
            let tail = limit_job(rest, name, quota);
            lemma_limit_job_count(rest, name, quota);
            assert((seq![h[0]] + tail).drop_first() =~= tail);
        }
    }
}

/// A prefix of a history holds no more entries of a job than the history.
pub proof fn lemma_count_prefix(h: Seq<JobExecution>, n: int, name: Seq<char>)
    requires
        0 <= n <= h.len(),
    ensures
        count_of(h.take(n), name) <= count_of(h, name),
    decreases h.len(),
{
    if n > 0 {
        assert(h.take(n).drop_first() =~= h.drop_first().take(n - 1));
        lemma_count_prefix(h.drop_first(), n - 1, name);
    }
}

/// The history a completion leaves holds at most `per_job` entries of the
/// job and at most `total` entries in all, and, when both limits are
/// positive, starts with the new execution.
pub proof fn law_history_bounded(
    h: Seq<JobExecution>,
    execution: JobExecution,
    name: Seq<char>,
    per_job: nat,
    total: nat,
)
    ensures
        history_after(h, execution, name, per_job, total).len() <= total,
        count_of(history_after(h, execution, name, per_job, total), name) <= per_job,
        per_job > 0 && total > 0 && execution.job_name@ == name ==> history_after(
            h,
            execution,
            name,
            per_job,
            total,
        )[0] == execution,
{
    let limited = limit_job(seq![execution] + h, name, per_job);
    lemma_limit_job_count(seq![execution] + h, name, per_job);
    if limited.len() > total {
        lemma_count_prefix(limited, total as int, name);
    }
    if per_job > 0 && total > 0 && execution.job_name@ == name {
        assert((seq![execution] + h)[0] == execution);
        assert(limited[0] == execution);
    }
}

/// Completing a run keeps failures within executions: in all, and for each
/// job.
pub proof fn law_failures_within_executions(
    new: SchedulerState,
    old: SchedulerState,
    name: Seq<char>,
    status: JobStatus,
    execution: JobExecution,
    next_run: Option<i64>,
    per_job: nat,
    total: nat,
)
    requires
        completed_from(new, old, name, status, execution, next_run, per_job, total),
        job_index(old.jobs@, name) matches Some(k) ==> can_complete(old.jobs@[k], status),
        old.total_failures <= old.total_executions,
        forall|i: int|
            0 <= i < old.jobs@.len() ==> #[trigger] old.jobs@[i].failure_count
                <= old.jobs@[i].run_count,
    ensures
        new.total_failures <= new.total_executions,
        forall|i: int|
            0 <= i < new.jobs@.len() ==> #[trigger] new.jobs@[i].failure_count
                <= new.jobs@[i].run_count,
{
    match job_index(old.jobs@, name) {
        Some(k) => {
            lemma_job_index(old.jobs@, name);
            assert(new.jobs@.len() == old.jobs@.len());
            assert forall|i: int| 0 <= i < new.jobs@.len() implies #[trigger] new.jobs@[i].failure_count
                <= new.jobs@[i].run_count by {
                if i != k {
                    assert(new.jobs@[i] == old.jobs@[i]);
                } else {
                    assert(old.jobs@[k].failure_count <= old.jobs@[k].run_count);
                }
            }
        },
        None => {},
    }
}

/// The index of the first job with the given name in `jobs`.
pub fn position_of_job(jobs: &Vec<ScheduledJob>, name: &str) -> (r: Option<usize>)
    ensures
        match job_index(jobs@, name@) {
            Some(i) => r == Some(i as usize),
            None => r is None,
        },
        match r {
            Some(i) => i < jobs@.len() && jobs@[i as int].name@ == name@ && forall|k: int|
                0 <= k < i ==> #[trigger] jobs@[k].name@ != name@,
            None => forall|k: int| 0 <= k < jobs@.len() ==> #[trigger] jobs@[k].name@ != name@,
        },
{
    let mut i: usize = 0;
    while i < jobs.len()
        invariant
            i <= jobs@.len(),
            forall|k: int| 0 <= k < i ==> #[trigger] jobs@[k].name@ != name@,
        decreases jobs@.len() - i,
    {
        if str_eq(jobs[i].name.as_str(), name) {
            proof {
                let j = job_index(jobs@, name@)->0;
                assert(jobs@[i as int].name@ == name@);
                if j > i {
                    assert(jobs@[i as int].name@ != name@);
                }
            }
            return Some(i);
        }
        i = i + 1;
    }
    None
}

impl SchedulerState {
    /// Create a new scheduler state, started now.
    pub fn new() -> (r: SchedulerState)
        ensures
            r.started_at == r.current_time,
            clock_reading(r.started_at),
            r.uptime_seconds == 0,
            r.is_running,
            r.total_jobs == 0,
            r.enabled_jobs == 0,
            r.running_jobs == 0,
            r.total_executions == 0,
            r.total_failures == 0,
            r.jobs@.len() == 0,
            r.recent_history@.len() == 0,
    {
        let now = now_millis();
        SchedulerState::new_at(now)
    }

    /// Create a new scheduler state started at `now`.
    pub fn new_at(now: i64) -> (r: SchedulerState)
        ensures
            r.started_at == now,
            r.current_time == now,
            r.uptime_seconds == 0,
            r.is_running,
            r.total_jobs == 0,
            r.enabled_jobs == 0,
            r.running_jobs == 0,
            r.total_executions == 0,
            r.total_failures == 0,
            r.jobs@.len() == 0,
            r.recent_history@.len() == 0,
    {
        SchedulerState {
            started_at: now,
            current_time: now,
            uptime_seconds: 0,
            is_running: true,
            total_jobs: 0,
            enabled_jobs: 0,
            running_jobs: 0,
            total_executions: 0,
            total_failures: 0,
            jobs: Vec::new(),
            recent_history: VecDeque::new(),
        }
    }

    /// Update timing information to now.
    pub fn update_time(&mut self)
        ensures
            exists|now: i64|
                #![trigger clock_reading(now)]
                clock_reading(now) && {
                    let t = if i64::MIN <= now - old(self).started_at <= i64::MAX {
                        now
                    } else {
                        old(self).started_at
                    };
                    *final(self) == (SchedulerState {
                        current_time: t,
                        uptime_seconds: whole_seconds(t - old(self).started_at) as i64,
                        ..*old(self)
                    })
                },
    {
        let now = now_millis();
        let diff = (now as i128) - (self.started_at as i128);
        assert(clock_reading(now));
        let now = if i64::MIN as i128 <= diff && diff <= i64::MAX as i128 {
            now
        } else {
            self.started_at
        };
        self.update_time_at(now);
    }

    /// Update timing information to `now`.
    pub fn update_time_at(&mut self, now: i64)
        requires
            i64::MIN <= now - old(self).started_at <= i64::MAX,
        ensures
            *final(self) == (SchedulerState {
                current_time: now,
                uptime_seconds: whole_seconds(now - old(self).started_at) as i64,
                ..*old(self)
            }),
    {
        self.current_time = now;
        let ms = now - self.started_at;
        self.uptime_seconds = if ms >= 0 {
            ms / 1000
        } else {
            -((-(ms as i128)) / 1000) as i64
        };
    }

    /// Add a job to the state: it replaces a job of the same name, and the
    /// job counters count it.
    pub fn add_job(&mut self, job: ScheduledJob)
        requires
            old(self).total_jobs < usize::MAX,
            job.enabled ==> old(self).enabled_jobs < usize::MAX,
        ensures
            final(self).jobs@ == jobs_with(old(self).jobs@, job),
            final(self).total_jobs == old(self).total_jobs + 1,
            final(self).enabled_jobs == old(self).enabled_jobs + if job.enabled {
                1int
            } else {
                0int
            },
            names_distinct(old(self).jobs@) ==> names_distinct(final(self).jobs@),
            *final(self) == (SchedulerState {
                jobs: final(self).jobs,
                total_jobs: final(self).total_jobs,
                enabled_jobs: final(self).enabled_jobs,
                ..*old(self)
            }),
    {
        self.total_jobs = self.total_jobs + 1;
        if job.enabled {
            self.enabled_jobs = self.enabled_jobs + 1;
        }
        let ghost before = self.jobs@;
        match self.find_job(job.name.as_str()) {
            Some(i) => {
                self.jobs.set(i, job);
                proof {
                    assert(before[i as int].name@ == job.name@);
                    assert forall|a: int, b: int|
                        names_distinct(before) && 0 <= a < self.jobs@.len() && 0 <= b
                            < self.jobs@.len() && a != b implies #[trigger] self.jobs@[a].name@
                        != #[trigger] self.jobs@[b].name@ by {
                        assert(self.jobs@[a].name@ == before[a].name@);
                        assert(self.jobs@[b].name@ == before[b].name@);
                    }
                }
            },
            None => {
                self.jobs.push(job);
                proof {
                    assert forall|a: int, b: int|
                        names_distinct(before) && 0 <= a < self.jobs@.len() && 0 <= b
                            < self.jobs@.len() && a != b implies #[trigger] self.jobs@[a].name@
                        != #[trigger] self.jobs@[b].name@ by {
                        if a < before.len() && b < before.len() {
                            assert(self.jobs@[a] == before[a]);
                            assert(self.jobs@[b] == before[b]);
                        } else if a < before.len() {
                            assert(self.jobs@[a] == before[a]);
                        } else {
                            assert(self.jobs@[b] == before[b]);
                        }
                    }
                }
            },
        }
    }

    /// The index of the job with the given name.
    pub fn find_job(&self, name: &str) -> (r: Option<usize>)
        ensures
            match job_index(self.jobs@, name@) {
                Some(i) => r == Some(i as usize),
                None => r is None,
            },
            match r {
                Some(i) => i < self.jobs@.len() && self.jobs@[i as int].name@ == name@ && forall|
                    k: int,
                | 0 <= k < i ==> #[trigger] self.jobs@[k].name@ != name@,
                None => forall|k: int|
                    0 <= k < self.jobs@.len() ==> #[trigger] self.jobs@[k].name@ != name@,
            },
    {
        position_of_job(&self.jobs, name)
    }

    /// Set the next run time of the job with the given name; nothing
    /// changes for a name no job has.
    pub fn set_next_run(&mut self, name: &str, next: Option<i64>)
        ensures
            final(self).jobs@ == match job_index(old(self).jobs@, name@) {
                Some(i) => old(self).jobs@.update(
                    i,
                    ScheduledJob { next_run: next, ..old(self).jobs@[i] },
                ),
                None => old(self).jobs@,
            },
            *final(self) == (SchedulerState { jobs: final(self).jobs, ..*old(self) }),
    {
        match self.find_job(name) {
            Some(i) => {
                self.jobs[i].next_run = next;
            },
            None => {},
        }
    }

    /// Get a job by name
    pub fn get_job(&self, name: &str) -> (r: Option<&ScheduledJob>)
        ensures
            match job_index(self.jobs@, name@) {
                Some(i) => r == Some(&self.jobs@[i]),
                None => r is None,
            },
    {
        match self.find_job(name) {
            Some(i) => Some(&self.jobs[i]),
            None => None,
        }
    }

    /// Get a mutable reference to a job: the one with the given name, if
    /// any. What is left behind the reference becomes that job; nothing
    /// else changes.
    pub fn get_job_mut(&mut self, name: &str) -> (r: Option<&mut ScheduledJob>)
        ensures
            match job_index(old(self).jobs@, name@) {
                Some(i) => r.is_some() && *r.unwrap() == old(self).jobs@[i] && final(self).jobs@
                    == old(self).jobs@.update(i, *final(r.unwrap())),
                None => r is None && final(self).jobs@ == old(self).jobs@,
            },
            *final(self) == (SchedulerState { jobs: final(self).jobs, ..*old(self) }),
    {
        match self.find_job(name) {
            Some(i) => Some(&mut self.jobs[i]),
            None => None,
        }
    }

    /// Record job start at `now`: the job is marked started and counted as
    /// running. Nothing changes for a name no job has.
    pub fn record_job_start(&mut self, job_name: &str, execution_id: uuid::Uuid, now: i64)
        requires
            job_index(old(self).jobs@, job_name@) is Some ==> old(self).running_jobs < usize::MAX,
        ensures
            started_from(*final(self), *old(self), job_name@, execution_id, now),
    {
        match self.find_job(job_name) {
            Some(i) => {
                self.jobs[i].mark_started_at(execution_id, now);
                self.running_jobs = self.running_jobs + 1;
            },
            None => {},
        }
    }

    /// Record that a failed run of a job will be tried again as attempt
    /// `attempt`. Nothing changes for a name no job has.
    pub fn record_job_retry(&mut self, job_name: &str, attempt: u32)
        ensures
            retried_from(*final(self), *old(self), job_name@, attempt),
    {
        match self.find_job(job_name) {
            Some(i) => {
                self.jobs[i].is_running = false;
                self.jobs[i].current_execution_id = None;
                self.jobs[i].last_status = Some(JobStatus::Retrying { attempt });
                if self.running_jobs > 0 {
                    self.running_jobs = self.running_jobs - 1;
                }
                assert(self.jobs@ =~= old(self).jobs@.update(
                    i as int,
                    ScheduledJob {
                        is_running: false,
                        current_execution_id: None,
                        last_status: Some(JobStatus::Retrying { attempt }),
                        ..old(self).jobs@[i as int]
                    },
                ));
            },
            None => {},
        }
    }

    /// Stop the run of a job: a running job is marked not running, and the
    /// execution it was running is returned.
    pub fn stop_job(&mut self, job_name: &str) -> (r: Option<uuid::Uuid>)
        ensures
            stopped_from(*final(self), *old(self), job_name@, r),
    {
        match self.find_job(job_name) {
            Some(i) => {
                if self.jobs[i].is_running {
                    let id = self.jobs[i].current_execution_id;
                    self.jobs[i].is_running = false;
                    self.jobs[i].current_execution_id = None;
                    assert(self.jobs@ =~= old(self).jobs@.update(
                        i as int,
                        ScheduledJob {
                            is_running: false,
                            current_execution_id: None,
                            ..old(self).jobs@[i as int]
                        },
                    ));
                    id
                } else {
                    None
                }
            },
            None => None,
        }
    }

    /// Keeps, of a history, every entry of other jobs and the first `quota`
    /// entries of job `name`, in order.
    fn limit_history(
        history: &mut VecDeque<JobExecution>,
        name: &str,
        quota: usize,
    )
        ensures
            final(history)@ == limit_job(old(history)@, name@, quota as nat),
    {
        let ghost full = history@;
        let mut kept: VecDeque<JobExecution> = VecDeque::new();
        let mut left: usize = quota;
        assert(kept@ + limit_job(history@, name@, left as nat) == limit_job(full, name@, quota as nat));
        while history.len() > 0
            invariant
                kept@ + limit_job(history@, name@, left as nat) == limit_job(
                    full,
                    name@,
                    quota as nat,
                ),
            decreases history@.len(),
        {
            let ghost rest = history@;
            match history.pop_front() {
                Some(e) => {
                    assert(rest.drop_first() == history@);
                    if str_eq(e.job_name.as_str(), name) {
                        if left > 0 {
                            left = left - 1;
                            let ghost k0 = kept@;
                            kept.push_back(e);
                            assert(kept@ + limit_job(history@, name@, left as nat) == k0 + (seq![e]
                                + limit_job(history@, name@, left as nat)));
                        }
                    } else {
                        let ghost k0 = kept@;
                        kept.push_back(e);
                        assert(kept@ + limit_job(history@, name@, left as nat) == k0 + (seq![e]
                            + limit_job(history@, name@, left as nat)));
                    }
                },
                None => {},
            }
        }
        assert(limit_job(history@, name@, left as nat) == history@);
        assert(kept@ + history@ == kept@);
        *history = kept;
    }

    /// Record job completion: the job (if there is one of that name) gets
    /// one more run and its next run time, the running count goes down (not
    /// below zero) and the totals count the execution; the execution goes
    /// first in the history, which then keeps at most `job_history_size`
    /// entries of this job and `max_history_size` entries in all.
    pub fn record_job_completion(
        &mut self,
        job_name: &str,
        status: JobStatus,
        execution: JobExecution,
        next_run: Option<i64>,
        job_history_size: usize,
        max_history_size: usize,
    )
        requires
            job_index(old(self).jobs@, job_name@) matches Some(i) ==> {
                &&& can_complete(old(self).jobs@[i], status)
                &&& old(self).total_executions < u64::MAX
                &&& is_failure(status) ==> old(self).total_failures < u64::MAX
            },
        ensures
            completed_from(
                *final(self),
                *old(self),
                job_name@,
                status,
                execution,
                next_run,
                job_history_size as nat,
                max_history_size as nat,
            ),
    {
        match self.find_job(job_name) {
            Some(i) => {
                let was_failure = status.is_failure();
                self.jobs[i].mark_completed(status, next_run);
                if self.running_jobs > 0 {
                    self.running_jobs = self.running_jobs - 1;
                }
                self.total_executions = self.total_executions + 1;
                if was_failure {
                    self.total_failures = self.total_failures + 1;
                }
            },
            None => {},
        }
        let ghost e = execution;
        self.recent_history.push_front(execution);
        SchedulerState::limit_history(&mut self.recent_history, job_name, job_history_size);
        self.recent_history.truncate(max_history_size);
        assert(self.recent_history@ =~= history_after(
            old(self).recent_history@,
            e,
            job_name@,
            job_history_size as nat,
            max_history_size as nat,
        ));
    }

    /// Executions that succeeded: all executions but the failures.
    pub fn successful_executions(&self) -> (r: u64)
        requires
            self.total_failures <= self.total_executions,
        ensures
            r == self.total_executions - self.total_failures,
    {
        self.total_executions - self.total_failures
    }

    /// Get jobs that are due to run now.
    pub fn due_jobs(&self) -> (r: Vec<&ScheduledJob>)
        ensures
            exists|now: i64|
                #![trigger clock_reading(now)]
                #![trigger due_entries(self.jobs@, now)]
                clock_reading(now) && r@.map_values(|j: &ScheduledJob| *j) == due_entries(self.jobs@, now),
    {
        let now = now_millis();
        self.due_jobs_at(now)
    }

    /// Get jobs that are due to run at `now`, in order.
    pub fn due_jobs_at(&self, now: i64) -> (r: Vec<&ScheduledJob>)
        ensures
            r@.map_values(|j: &ScheduledJob| *j) == due_entries(self.jobs@, now),
    {
        let mut out: Vec<&ScheduledJob> = Vec::new();
        let mut i: usize = 0;
        while i < self.jobs.len()
            invariant
                i <= self.jobs@.len(),
                out@.map_values(|j: &ScheduledJob| *j) == due_entries(self.jobs@.take(i as int), now),
            decreases self.jobs@.len() - i,
        {
            let ghost before = out@;
            assert(self.jobs@.take(i + 1).drop_last() == self.jobs@.take(i as int));
            let j = &self.jobs[i];
            let due = j.enabled && !j.is_running && match j.next_run {
                Some(t) => t <= now,
                None => false,
            };
            if due {
                out.push(j);
                assert(out@.map_values(|j: &ScheduledJob| *j) =~= before.map_values(
                    |j: &ScheduledJob| *j,
                ).push(self.jobs@[i as int]));
            }
            i = i + 1;
        }
        assert(self.jobs@.take(self.jobs@.len() as int) == self.jobs@);
        out
    }
}

} // verus!