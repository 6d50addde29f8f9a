//! Error types for FlashCron.

use crate::text::{push_decimal, push_signed_decimal, push_str, signed_decimal, decimal, string_of};
use vstd::prelude::*;

verus! {

/// Main error type for FlashCron. Causes that come from outside the library
/// (an I/O error, a TOML parser's message) are carried as their text.
#[derive(Debug, Clone)]
pub enum Error {
    Config(String),
    ConfigParse { path: String, reason: String },
    ConfigRead { path: String, reason: String },
    CronParse { expr: String, reason: String },
    JobNotFound { job_name: String },
    JobFailed { job_name: String, exit_code: i32 },
    JobTimeout { job_name: String, timeout_secs: u64 },
    JobSpawn { job_name: String, reason: String },
    Scheduler(String),
    Io(String),
    ChannelSend,
    Shutdown,
}

/// The text of an error, as it is shown to a user.
pub open spec fn error_message(e: Error) -> Seq<char> {
    match e {
        Error::Config(m) => "Configuration error: "@ + m@,
        Error::ConfigParse { path, reason } => "Failed to parse config file '"@ + path@ + "': "@
            + reason@,
        Error::ConfigRead { path, reason } => "Failed to read config file '"@ + path@ + "': "@
            + reason@,
        Error::CronParse { expr, reason } => "Invalid cron expression '"@ + expr@ + "': "@
            + reason@,
        Error::JobNotFound { job_name } => "Job '"@ + job_name@ + "' not found"@,
        Error::JobFailed { job_name, exit_code } => "Job '"@ + job_name@
            + "' failed with exit code "@ + signed_decimal(exit_code as int),
        Error::JobTimeout { job_name, timeout_secs } => "Job '"@ + job_name@ + "' timed out after "@
            + decimal(timeout_secs as nat) + "s"@,
        Error::JobSpawn { job_name, reason } => "Failed to spawn job '"@ + job_name@ + "': "@
            + reason@,
        Error::Scheduler(m) => "Scheduler error: "@ + m@,
        Error::Io(m) => "IO error: "@ + m@,
        Error::ChannelSend => "Channel send error"@,
        Error::Shutdown => "Shutdown signal received"@,
    }
}

impl Error {
    /// Create a configuration error
    pub fn config(msg: String) -> (r: Error)
        ensures
            r == Error::Config(msg),
    {
        Error::Config(msg)
    }

    /// Create a cron parse error
    pub fn cron_parse(expr: String, reason: String) -> (r: Error)
        ensures
            r == (Error::CronParse { expr, reason }),
    {
        Error::CronParse { expr, reason }
    }

    /// Create a job not found error
    pub fn job_not_found(name: String) -> (r: Error)
        ensures
            r == (Error::JobNotFound { job_name: name }),
    {
        Error::JobNotFound { job_name: name }
    }

    /// Create a job failed error
    pub fn job_failed(name: String, exit_code: i32) -> (r: Error)
        ensures
            r == (Error::JobFailed { job_name: name, exit_code }),
    {
        Error::JobFailed { job_name: name, exit_code }
    }

    /// Create a job timeout error
    pub fn job_timeout(name: String, timeout_secs: u64) -> (r: Error)
        ensures
            r == (Error::JobTimeout { job_name: name, timeout_secs }),
    {
        Error::JobTimeout { job_name: name, timeout_secs }
    }

    /// Check if this is a shutdown error
    pub fn is_shutdown(&self) -> (r: bool)
        ensures
            r == (*self is Shutdown),
    {
        match self {
            Error::Shutdown => true,
            _ => false,
        }
    }

    /// The text of the error, as it is shown to a user.
    pub fn message(&self) -> (r: String)
        ensures
            r@ == error_message(*self),
    {
        let mut out: Vec<char> = Vec::new();
        match self {
            Error::Config(m) => {
                push_str(&mut out, "Configuration error: ");
                push_str(&mut out, m.as_str());
            },
            Error::ConfigParse { path, reason } => {
                push_str(&mut out, "Failed to parse config file '");
                push_str(&mut out, path.as_str());
                push_str(&mut out, "': ");
                push_str(&mut out, reason.as_str());
            },
            Error::ConfigRead { path, reason } => {
                push_str(&mut out, "Failed to read config file '");
                push_str(&mut out, path.as_str());
                push_str(&mut out, "': ");
                push_str(&mut out, reason.as_str());
            },
            Error::CronParse { expr, reason } => {
                push_str(&mut out, "Invalid cron expression '");
                push_str(&mut out, expr.as_str());
                push_str(&mut out, "': ");
                push_str(&mut out, reason.as_str());
            },
            Error::JobNotFound { job_name } => {
                push_str(&mut out, "Job '");
                push_str(&mut out, job_name.as_str());
                push_str(&mut out, "' not found");
            },
            Error::JobFailed { job_name, exit_code } => {
                push_str(&mut out, "Job '");
                push_str(&mut out, job_name.as_str());
                push_str(&mut out, "' failed with exit code ");
                push_signed_decimal(&mut out, *exit_code as i64);
            },
            Error::JobTimeout { job_name, timeout_secs } => {
                push_str(&mut out, "Job '");
                push_str(&mut out, job_name.as_str());
                push_str(&mut out, "' timed out after ");
                push_decimal(&mut out, *timeout_secs);
                push_str(&mut out, "s");
            },
            Error::JobSpawn { job_name, reason } => {
                push_str(&mut out, "Failed to spawn job '");
                push_str(&mut out, job_name.as_str());
                push_str(&mut out, "': ");
                push_str(&mut out, reason.as_str());
            },
            Error::Scheduler(m) => {
                push_str(&mut out, "Scheduler error: ");
                push_str(&mut out, m.as_str());
            },
            Error::Io(m) => {
                push_str(&mut out, "IO error: ");
                push_str(&mut out, m.as_str());
            },
            Error::ChannelSend => {
                push_str(&mut out, "Channel send error");
            },
            Error::Shutdown => {
                push_str(&mut out, "Shutdown signal received");
            },
        }
        string_of(out.as_slice())
    }
}

} // verus!
