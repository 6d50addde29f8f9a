//! The command line: its arguments, how logging is set up from them, and
//! what the commands print. Reading files, running processes and printing
//! are the caller's.

pub mod logging;
pub mod report;

use vstd::prelude::*;

verus! {

/// FlashCron - A lightweight, efficient cron daemon
#[derive(Debug)]
pub struct Cli {
    /// Configuration file path
    pub config: Option<String>,
    /// Log level (trace, debug, info, warn, error)
    pub log_level: Option<String>,
    /// Output logs in JSON format
    pub json: bool,
    /// The command to run
    pub command: Commands,
}

/// The commands of the command line.
#[derive(Debug)]
pub enum Commands {
    /// Start the cron daemon
    Run {
        /// Run in foreground (don't daemonize)
        foreground: bool,
    },
    /// Validate configuration file
    Validate,
    /// List all configured jobs
    List {
        /// Show only enabled jobs
        enabled: bool,
        /// Output format (table, json)
        format: String,
    },
    /// Trigger a job immediately
    Trigger {
        /// Job name to trigger
        job_name: String,
    },
    /// Generate default configuration file
    Init {
        /// Output path for config file
        output: String,
        /// Overwrite existing file
        force: bool,
    },
    /// Show daemon status (if running)
    Status,
    /// Show next scheduled run times
    Schedule {
        /// Number of upcoming runs to show
        count: usize,
    },
    /// Show job execution history
    History {
        /// Job name to filter by
        job_name: Option<String>,
        /// Limit number of records
        limit: usize,
        /// Query specific execution by ID
        id: Option<String>,
    },
}

} // verus!
