//! Job configuration structures and execution records.

use crate::clock::{clock_reading, now_millis};
use crate::config::schedule::{
    cron_accepts, cron_expression, cron_expression_of, cron_next, cron_next_after, cron_parse,
    normalize_day_field, normalized_day_field, parse_cron, CronSchedule,
};
use crate::config::settings::Zone;
use crate::error::Error;
use crate::text::{
    all_blank, chars_of, copy_opt_string, copy_pairs, copy_strings, decimal, is_blank, opt_string_view,
    pair_views, push_decimal, push_str, string_of, string_views,
};
use vstd::prelude::*;

verus! {

/// Job definition
#[derive(Debug, Clone)]
pub struct Job {
    /// Cron schedule expression (standard 5-field format)
    pub schedule: String,
    /// Command to execute
    pub command: String,
    /// Optional description
    pub description: String,
    /// Whether the job is enabled
    pub enabled: bool,
    /// Working directory for the command
    pub working_dir: Option<String>,
    /// Environment variables, in the order they were written
    pub environment: Vec<(String, String)>,
    /// Timeout in seconds (0 = no timeout)
    pub timeout: u64,
    /// Shell to use (overrides global setting)
    pub shell: Option<String>,
    /// Number of retry attempts on failure
    pub retry_count: u32,
    /// Delay between retries in seconds
    pub retry_delay: u64,
    /// User to run the job as (Unix only)
    pub user: Option<String>,
    /// Whether to capture and log stdout/stderr
    pub capture_output: bool,
    /// Maximum output size to capture in bytes
    pub max_output_size: usize,
    /// Run on startup (in addition to schedule)
    pub run_on_startup: bool,
    /// Tags for filtering/grouping
    pub tags: Vec<String>,
    /// Whether to print output (overrides global setting)
    pub print_output: Option<bool>,
}

/// Default of `enabled`.
pub fn default_enabled() -> (r: bool)
    ensures
        r,
{
    true
}

/// Default of `retry_delay`, in seconds.
pub fn default_retry_delay() -> (r: u64)
    ensures
        r == 60,
{
    60
}

/// Default of `capture_output`.
pub fn default_capture_output() -> (r: bool)
    ensures
        r,
{
    true
}

/// Default of `max_output_size`: one mebibyte.
pub fn default_max_output() -> (r: usize)
    ensures
        r == 1024 * 1024,
{
    1024 * 1024
}

/// A job's schedule is accepted by the `cron` crate once it is rewritten.
pub open spec fn schedule_valid(j: Job) -> bool {
    cron_accepts(cron_expression(j.schedule@))
}

/// A job is valid: its schedule is accepted and its command is not blank.
pub open spec fn job_valid(j: Job) -> bool {
    schedule_valid(j) && !is_blank(j.command@)
}

/// The next run of a job after `after_ms` in the zone named `zone`: none
/// when its schedule does not parse.
pub open spec fn next_run_at(j: Job, zone: Seq<char>, after_ms: i64) -> Option<i64> {
    if schedule_valid(j) {
        cron_next(cron_expression(j.schedule@), zone, after_ms)
    } else {
        None
    }
}

/// The message of the error for a job whose command is blank.
pub open spec fn empty_command_message(name: Seq<char>) -> Seq<char> {
    "Job '"@ + name + "' has empty command"@
}

/// The error that `Job::validate` reports for an invalid job.
pub open spec fn validation_error_matches(j: Job, name: Seq<char>, e: Error) -> bool {
    if !schedule_valid(j) {
        e matches Error::CronParse { expr, reason } && expr@ == j.schedule@ && cron_parse(
            cron_expression(j.schedule@),
        ) == Err::<(), Seq<char>>(reason@)
    } else {
        e matches Error::Config(m) && m@ == empty_command_message(name)
    }
}

impl Job {
    /// Validate the job configuration: the schedule must be a cron
    /// expression that the `cron` crate accepts, and the command must not be
    /// blank. The first failing check is reported.
    pub fn validate(&self, name: &str) -> (r: Result<(), Error>)
        ensures
            r is Ok <==> job_valid(*self),
            r matches Err(e) ==> validation_error_matches(*self, name@, e),
    {
        match self.parse_schedule() {
            Err(reason) => {
                return Err(Error::CronParse { expr: self.schedule.clone(), reason });
            },
            Ok(_) => {},
        }
        let cmd = chars_of(self.command.as_str());
        if all_blank(cmd.as_slice()) {
            let mut m: Vec<char> = Vec::new();
            push_str(&mut m, "Job '");
            push_str(&mut m, name);
            push_str(&mut m, "' has empty command");
            return Err(Error::Config(string_of(m.as_slice())));
        }
        Ok(())
    }

    /// Parse the cron schedule: a five-field schedule gets a seconds field,
    /// and numeric days of week are written as names before the `cron`
    /// crate reads the expression. The error is the crate's message.
    pub fn parse_schedule(&self) -> (r: Result<CronSchedule, String>)
        ensures
            r is Ok <==> schedule_valid(*self),
            r matches Ok(s) ==> s@ == cron_expression(self.schedule@),
            r matches Err(m) ==> cron_parse(cron_expression(self.schedule@)) == Err::<(), Seq<char>>(
                m@,
            ),
    {
        let expr = cron_expression_of(self.schedule.as_str());
        parse_cron(expr.as_str())
    }

    /// Rewrites the day-of-week field: `0` and `7` become `Sun`, `1` to `6`
    /// become `Mon` to `Sat`, and a step after `/` is kept.
    pub fn normalize_dow_field(field: &str) -> (r: String)
        ensures
            r@ == normalized_day_field(field@),
    {
        let c = chars_of(field);
        let n = normalize_day_field(c.as_slice());
        string_of(n.as_slice())
    }

    /// Get the next scheduled run time after the current instant, in
    /// milliseconds since the Unix epoch; `None` when the schedule does not
    /// parse or never fires again.
    pub fn next_run(&self, zone: &Zone) -> (r: Option<i64>)
        ensures
            exists|now: i64|
                #![trigger clock_reading(now)]
                #![trigger next_run_at(*self, zone@, now)]
                clock_reading(now) && r == next_run_at(*self, zone@, now),
    {
        let now = now_millis();
        self.next_run_after(zone, now)
    }

    /// The next scheduled run time after the instant `after_ms`; `None` when
    /// the schedule does not parse or never fires again.
    pub fn next_run_after(&self, zone: &Zone, after_ms: i64) -> (r: Option<i64>)
        ensures
            r == next_run_at(*self, zone@, after_ms),
    {
        match self.parse_schedule() {
            Ok(schedule) => cron_next_after(&schedule, zone, after_ms),
            Err(_) => None,
        }
    }

    /// Get the retry policy
    pub fn retry_policy(&self) -> (r: RetryPolicy)
        ensures
            r.max_attempts == self.retry_count,
            r.delay_seconds == self.retry_delay,
    {
        RetryPolicy { max_attempts: self.retry_count, delay_seconds: self.retry_delay }
    }

    /// Check if job has timeout configured
    pub fn has_timeout(&self) -> (r: bool)
        ensures
            r == (self.timeout > 0),
    {
        self.timeout > 0
    }
}

/// Two jobs with the same field values.
pub open spec fn same_job(a: Job, b: Job) -> bool {
    &&& a.schedule@ == b.schedule@
    &&& a.command@ == b.command@
    &&& a.description@ == b.description@
    &&& a.enabled == b.enabled
    &&& opt_string_view(a.working_dir) == opt_string_view(b.working_dir)
    &&& pair_views(a.environment@) == pair_views(b.environment@)
    &&& a.timeout == b.timeout
    &&& opt_string_view(a.shell) == opt_string_view(b.shell)
    &&& a.retry_count == b.retry_count
    &&& a.retry_delay == b.retry_delay
    &&& opt_string_view(a.user) == opt_string_view(b.user)
    &&& a.capture_output == b.capture_output
    &&& a.max_output_size == b.max_output_size
    &&& a.run_on_startup == b.run_on_startup
    &&& string_views(a.tags@) == string_views(b.tags@)
    &&& a.print_output == b.print_output
}

impl Job {
    /// A copy of the job.
    pub fn duplicate(&self) -> (r: Job)
        ensures
            same_job(r, *self),
    {
        Job {
            schedule: self.schedule.clone(),
            command: self.command.clone(),
            description: self.description.clone(),
            enabled: self.enabled,
            working_dir: copy_opt_string(&self.working_dir),
            environment: copy_pairs(&self.environment),
            timeout: self.timeout,
            shell: copy_opt_string(&self.shell),
            retry_count: self.retry_count,
            retry_delay: self.retry_delay,
            user: copy_opt_string(&self.user),
            capture_output: self.capture_output,
            max_output_size: self.max_output_size,
            run_on_startup: self.run_on_startup,
            tags: copy_strings(&self.tags),
            print_output: self.print_output,
        }
    }
}

/// The field values of `Job::default()`.
pub open spec fn is_default_job(j: Job) -> bool {
    &&& j.schedule@ == "* * * * *"@
    &&& j.command@ == Seq::<char>::empty()
    &&& j.description@ == Seq::<char>::empty()
    &&& j.enabled
    &&& j.working_dir is None
    &&& j.environment@.len() == 0
    &&& j.timeout == 0
    &&& j.shell is None
    &&& j.retry_count == 0
    &&& j.retry_delay == 60
    &&& j.user is None
    &&& j.capture_output
    &&& j.max_output_size == 1024 * 1024
    &&& !j.run_on_startup
    &&& j.tags@.len() == 0
    &&& j.print_output is None
}

impl Default for Job {
    fn default() -> (r: Job)
        ensures
            is_default_job(r),
    {
        Job {
            schedule: String::from_str("* * * * *"),
            command: String::new(),
            description: String::new(),
            enabled: true,
            working_dir: None,
            environment: Vec::new(),
            timeout: 0,
            shell: None,
            retry_count: 0,
            retry_delay: 60,
            user: None,
            capture_output: true,
            max_output_size: 1024 * 1024,
            run_on_startup: false,
            tags: Vec::new(),
            print_output: None,
        }
    }
}

/// Retry policy for failed jobs
#[derive(Debug, Clone, Copy)]
pub struct RetryPolicy {
    /// Maximum number of retry attempts
    pub max_attempts: u32,
    /// Delay between retries in seconds
    pub delay_seconds: u64,
}

impl RetryPolicy {
    /// Check if retry is enabled
    pub fn is_enabled(&self) -> (r: bool)
        ensures
            r == (self.max_attempts > 0),
    {
        self.max_attempts > 0
    }
}

/// Status of a job execution
#[derive(Debug, Clone, PartialEq, Eq)]
pub enum JobStatus {
    /// Job is scheduled and waiting
    Pending,
    /// Job is currently running
    Running,
    /// Job completed successfully
    Success,
    /// Job failed with error
    Failed { error: String },
    /// Job was killed due to timeout
    Timeout,
    /// Job was manually cancelled
    Cancelled,
    /// Job is being retried
    Retrying { attempt: u32 },
}

/// A status that counts as a failure: a failed or timed-out execution.
pub open spec fn is_failure(s: JobStatus) -> bool {
    s is Failed || s is Timeout
}

/// The text of a status, as it is shown to a user.
pub open spec fn status_label(s: JobStatus) -> Seq<char> {
    match s {
        JobStatus::Pending => "pending"@,
        JobStatus::Running => "running"@,
        JobStatus::Success => "success"@,
        JobStatus::Failed { error } => "failed: "@ + error@,
        JobStatus::Timeout => "timeout"@,
        JobStatus::Cancelled => "cancelled"@,
        JobStatus::Retrying { attempt } => "retrying (attempt "@ + decimal(attempt as nat) + ")"@,
    }
}

impl JobStatus {
    /// A copy of the status.
    pub fn duplicate(&self) -> (r: JobStatus)
        ensures
            r == *self,
    {
        match self {
            JobStatus::Pending => JobStatus::Pending,
            JobStatus::Running => JobStatus::Running,
            JobStatus::Success => JobStatus::Success,
            JobStatus::Failed { error } => JobStatus::Failed { error: error.clone() },
            JobStatus::Timeout => JobStatus::Timeout,
            JobStatus::Cancelled => JobStatus::Cancelled,
            JobStatus::Retrying { attempt } => JobStatus::Retrying { attempt: *attempt },
        }
    }

    /// Whether this status counts as a failure.
    pub fn is_failure(&self) -> (r: bool)
        ensures
            r == is_failure(*self),
    {
        match self {
            JobStatus::Failed { .. } | JobStatus::Timeout => true,
            _ => false,
        }
    }

    /// The text of the status, as it is shown to a user.
    pub fn label(&self) -> (r: String)
        ensures
            r@ == status_label(*self),
    {
        let mut out: Vec<char> = Vec::new();
        match self {
            JobStatus::Pending => push_str(&mut out, "pending"),
            JobStatus::Running => push_str(&mut out, "running"),
            JobStatus::Success => push_str(&mut out, "success"),
            JobStatus::Failed { error } => {
                push_str(&mut out, "failed: ");
                push_str(&mut out, error.as_str());
            },
            JobStatus::Timeout => push_str(&mut out, "timeout"),
            JobStatus::Cancelled => push_str(&mut out, "cancelled"),
            JobStatus::Retrying { attempt } => {
                push_str(&mut out, "retrying (attempt ");
                push_decimal(&mut out, *attempt as u64);
                push_str(&mut out, ")");
            },
        }
        string_of(out.as_slice())
    }
}

/// The identifier type of `uuid`, carried through opaque.
#[verifier::external_type_specification]
#[verifier::external_body]
pub struct ExUuid(uuid::Uuid);

/// `<uuid::Uuid as Clone>::clone`: the crate derives `Clone` and `Copy` for
/// `Uuid`, so a clone is the same identifier.
pub assume_specification[ <uuid::Uuid as Clone>::clone ](u: &uuid::Uuid) -> (r: uuid::Uuid)
    ensures
        r == *u,
;

/// `uuid::Uuid::new_v4()`: a fresh random identifier. Nothing is claimed of
/// it: it is random.
#[verifier::external_body]
pub fn new_execution_id() -> uuid::Uuid {
    uuid::Uuid::new_v4()
}

/// Record of a job execution. Instants are milliseconds since the Unix epoch.
#[derive(Debug, Clone)]
pub struct JobExecution {
    /// Unique execution ID
    pub id: uuid::Uuid,
    /// Job name
    pub job_name: String,
    /// What started the execution (`cron`, `manual`, `startup`)
    pub trigger: String,
    /// Start time
    pub started_at: i64,
    /// End time (if completed)
    pub ended_at: Option<i64>,
    /// Exit status
    pub status: JobStatus,
    /// Exit code (if available)
    pub exit_code: Option<i32>,
    /// Captured stdout
    pub stdout: Option<String>,
    /// Captured stderr
    pub stderr: Option<String>,
    /// Retry attempt number
    pub attempt: u32,
}

impl JobExecution {
    /// Create a new job execution record with a fresh identifier, started
    /// now.
    pub fn new(job_name: String, trigger: String) -> (r: JobExecution)
        ensures
            r.job_name == job_name,
            r.trigger == trigger,
            r.ended_at is None,
            r.status == JobStatus::Running,
            r.exit_code is None,
            r.stdout is None,
            r.stderr is None,
            r.attempt == 1,
            clock_reading(r.started_at),
    {
        let id = new_execution_id();
        let now = now_millis();
        JobExecution::new_at(job_name, trigger, id, now)
    }

    /// Create a new job execution record with the given identifier, started
    /// at `now`.
    pub fn new_at(job_name: String, trigger: String, id: uuid::Uuid, now: i64) -> (r: JobExecution)
        ensures
            r.id == id,
            r.job_name == job_name,
            r.trigger == trigger,
            r.started_at == now,
            r.ended_at is None,
            r.status == JobStatus::Running,
            r.exit_code is None,
            r.stdout is None,
            r.stderr is None,
            r.attempt == 1,
    {
        JobExecution {
            id,
            job_name,
            trigger,
            started_at: now,
            ended_at: None,
            status: JobStatus::Running,
            exit_code: None,
            stdout: None,
            stderr: None,
            attempt: 1,
        }
    }

    /// Mark execution as completed with success, now.
    pub fn complete_success(&mut self, exit_code: i32, stdout: String, stderr: String)
        ensures
            final(self).ended_at matches Some(e) && clock_reading(e),
            final(self).status == JobStatus::Success,
            final(self).exit_code == Some(exit_code),
            final(self).stdout == Some(stdout),
            final(self).stderr == Some(stderr),
            final(self).id == old(self).id,
            final(self).job_name == old(self).job_name,
            final(self).trigger == old(self).trigger,
            final(self).started_at == old(self).started_at,
            final(self).attempt == old(self).attempt,
    {
        let now = now_millis();
        self.complete_success_at(now, exit_code, stdout, stderr);
    }

    /// Mark execution as completed with success at `now`.
    pub fn complete_success_at(&mut self, now: i64, exit_code: i32, stdout: String, stderr: String)
        ensures
            *final(self) == (JobExecution {
                ended_at: Some(now),
                status: JobStatus::Success,
                exit_code: Some(exit_code),
                stdout: Some(stdout),
                stderr: Some(stderr),
                ..*old(self)
            }),
    {
        self.ended_at = Some(now);
        self.status = JobStatus::Success;
        self.exit_code = Some(exit_code);
        self.stdout = Some(stdout);
        self.stderr = Some(stderr);
    }

    /// Mark execution as failed, now.
    pub fn complete_failed(
        &mut self,
        error: String,
        exit_code: Option<i32>,
        stdout: String,
        stderr: String,
    )
        ensures
            final(self).ended_at matches Some(e) && clock_reading(e),
            final(self).status == (JobStatus::Failed { error }),
            final(self).exit_code == exit_code,
            final(self).stdout == Some(stdout),
            final(self).stderr == Some(stderr),
            final(self).id == old(self).id,
            final(self).job_name == old(self).job_name,
            final(self).trigger == old(self).trigger,
            final(self).started_at == old(self).started_at,
            final(self).attempt == old(self).attempt,
    {
        let now = now_millis();
        self.complete_failed_at(now, error, exit_code, stdout, stderr);
    }

    /// Mark execution as failed at `now`.
    pub fn complete_failed_at(
        &mut self,
        now: i64,
        error: String,
        exit_code: Option<i32>,
        stdout: String,
        stderr: String,
    )
        ensures
            *final(self) == (JobExecution {
                ended_at: Some(now),
                status: JobStatus::Failed { error },
                exit_code,
                stdout: Some(stdout),
                stderr: Some(stderr),
                ..*old(self)
            }),
    {
        self.ended_at = Some(now);
        self.status = JobStatus::Failed { error };
        self.exit_code = exit_code;
        self.stdout = Some(stdout);
        self.stderr = Some(stderr);
    }

    /// Mark execution as timed out, now.
    pub fn complete_timeout(&mut self)
        ensures
            final(self).ended_at matches Some(e) && clock_reading(e),
            *final(self) == (JobExecution {
                ended_at: final(self).ended_at,
                status: JobStatus::Timeout,
                ..*old(self)
            }),
    {
        let now = now_millis();
        self.complete_timeout_at(now);
    }

    /// Mark execution as timed out at `now`.
    pub fn complete_timeout_at(&mut self, now: i64)
        ensures
            *final(self) == (JobExecution {
                ended_at: Some(now),
                status: JobStatus::Timeout,
                ..*old(self)
            }),
    {
        self.ended_at = Some(now);
        self.status = JobStatus::Timeout;
    }

    /// Get execution duration in milliseconds, once it has ended.
    pub fn duration(&self) -> (r: Option<i64>)
        requires
            self.ended_at matches Some(e) ==> i64::MIN <= e - self.started_at <= i64::MAX,
        ensures
            r == (match self.ended_at {
                Some(e) => Some((e - self.started_at) as i64),
                None => None,
            }),
    {
        match self.ended_at {
            Some(e) => Some(e - self.started_at),
            None => None,
        }
    }

    /// Check if execution is still running
    pub fn is_running(&self) -> (r: bool)
        ensures
            r == (self.status is Running),
    {
        match self.status {
            JobStatus::Running => true,
            _ => false,
        }
    }
}

} // verus!
