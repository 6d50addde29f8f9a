//! Scheduler module - the core scheduling engine. Instants are milliseconds
//! since the Unix epoch.

pub mod engine;
pub mod state;

use crate::clock::{clock_reading, now_millis};
use crate::config::job::Job;
use vstd::prelude::*;

verus! {

/// Message types for scheduler communication
#[derive(Debug)]
pub enum SchedulerMessage {
    /// Trigger a job immediately
    TriggerJob { job_name: String },
    /// Reload configuration
    ReloadConfig,
    /// Get scheduler status
    GetStatus,
    /// Stop a running job
    StopJob { job_name: String },
    /// Shutdown the scheduler
    Shutdown,
}

/// Event emitted by the scheduler
#[derive(Debug, Clone)]
pub enum SchedulerEvent {
    /// Job is about to start
    JobStarting { job_name: String, execution_id: uuid::Uuid },
    /// Job completed
    JobCompleted { job_name: String, execution_id: uuid::Uuid, success: bool, duration_ms: u64 },
    /// Job failed
    JobFailed { job_name: String, execution_id: uuid::Uuid, error: String },
    /// Configuration reloaded
    ConfigReloaded { job_count: usize },
    /// Scheduler started
    Started,
    /// Scheduler stopped
    Stopped,
}

/// Represents a scheduled job trigger
#[derive(Debug, Clone)]
pub struct JobTrigger {
    /// Job name
    pub job_name: String,
    /// Scheduled time
    pub scheduled_at: i64,
    /// The job configuration
    pub job: Job,
}

/// A trigger at `at` is due at `now`.
pub open spec fn due(at: i64, now: i64) -> bool {
    now >= at
}

/// Milliseconds from `now` until `at`: zero once `at` has passed, and at
/// most `i64::MAX`.
pub open spec fn ms_until(at: i64, now: i64) -> int {
    if at - now <= 0 {
        0
    } else if at - now > i64::MAX {
        i64::MAX as int
    } else {
        at - now
    }
}

impl JobTrigger {
    /// Create a new job trigger
    pub fn new(job_name: String, scheduled_at: i64, job: Job) -> (r: JobTrigger)
        ensures
            r == (JobTrigger { job_name, scheduled_at, job }),
    {
        JobTrigger { job_name, scheduled_at, job }
    }

    /// Check if this trigger is due now.
    pub fn is_due(&self) -> (r: bool)
        ensures
            exists|now: i64|
                #![trigger clock_reading(now)]
                #![trigger due(self.scheduled_at, now)]
                clock_reading(now) && r == due(self.scheduled_at, now),
    {
        let now = now_millis();
        self.is_due_at(now)
    }

    /// Check if this trigger is due at `now`.
    pub fn is_due_at(&self, now: i64) -> (r: bool)
        ensures
            r == due(self.scheduled_at, now),
    {
        now >= self.scheduled_at
    }

    /// Get milliseconds until this trigger is due, from now.
    pub fn ms_until_due(&self) -> (r: i64)
        ensures
            exists|now: i64|
                #![trigger clock_reading(now)]
                #![trigger ms_until(self.scheduled_at, now)]
                clock_reading(now) && r == ms_until(self.scheduled_at, now),
    {
        let now = now_millis();
        self.ms_until_due_at(now)
    }

    /// Get milliseconds until this trigger is due, from `now`.
    pub fn ms_until_due_at(&self, now: i64) -> (r: i64)
        ensures
            r == ms_until(self.scheduled_at, now),
    {
        let d: i128 = self.scheduled_at as i128 - now as i128;
        if d <= 0 {
            0
        } else if d > i64::MAX as i128 {
            i64::MAX
        } else {
            d as i64
        }
    }
}

} // verus!
