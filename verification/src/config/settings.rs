//! Global settings and their defaults.

use crate::text::str_eq;
use chrono::TimeZone;
use vstd::prelude::*;

verus! {

/// Default log level.
pub const DEFAULT_LOG_LEVEL: &'static str = "info";

/// Default limit of jobs running at once.
pub const DEFAULT_MAX_CONCURRENT_JOBS: usize = 10;

/// Whether the configuration file is watched by default.
pub const DEFAULT_WATCH_CONFIG: bool = true;

/// Default seconds to wait for running jobs at shutdown.
pub const DEFAULT_SHUTDOWN_TIMEOUT: u64 = 30;

/// Whether job output goes to the log by default.
pub const DEFAULT_PRINT_OUTPUT: bool = false;

/// Default time zone setting: the machine's zone.
pub const DEFAULT_TIMEZONE: &'static str = "System";

/// Default number of history entries kept per job.
pub const DEFAULT_JOB_HISTORY_SIZE: usize = 100;

/// Default number of history entries kept in all.
pub const DEFAULT_MAX_HISTORY_SIZE: usize = 10000;

/// Default address the API listens on.
pub const DEFAULT_API_HOST: &'static str = "0.0.0.0";

/// Default port the API listens on.
pub const DEFAULT_API_PORT: u16 = 8080;

/// Global settings for FlashCron
#[derive(Debug, Clone)]
pub struct Settings {
    /// Working directory for all jobs
    pub working_dir: Option<String>,
    /// Log level (trace, debug, info, warn, error)
    pub log_level: String,
    /// Whether to log in JSON format
    pub json_logs: bool,
    /// Log file path
    pub log_file: Option<String>,
    /// Maximum number of jobs that can run simultaneously (0 = unlimited)
    pub max_concurrent_jobs: usize,
    /// Default shell for executing commands
    pub shell: String,
    /// Arguments for the shell
    pub shell_args: Vec<String>,
    /// Whether to watch the config file for changes
    pub watch_config: bool,
    /// Path to PID file
    pub pid_file: Option<String>,
    /// Max history entries to keep per job
    pub job_history_size: usize,
    /// Max total history entries to keep globally
    pub max_history_size: usize,
    /// API Server host
    pub api_host: String,
    /// API Server port
    pub api_port: u16,
    /// Token that write requests to the API must present
    pub api_token: Option<String>,
    /// SQLite database file for the execution history
    pub sql_file: Option<String>,
    /// Timezone for cron expressions ("System" = the machine's zone)
    pub timezone: String,
    /// Grace period in seconds for shutdown
    pub shutdown_timeout: u64,
    /// Whether to print command execution output
    pub print_output: bool,
}

/// Default of `log_level`.
pub fn default_log_level() -> (r: String)
    ensures
        r@ == DEFAULT_LOG_LEVEL@,
{
    String::from_str(DEFAULT_LOG_LEVEL)
}

/// Default of `max_concurrent_jobs`.
pub fn default_max_concurrent() -> (r: usize)
    ensures
        r == DEFAULT_MAX_CONCURRENT_JOBS,
{
    DEFAULT_MAX_CONCURRENT_JOBS
}

/// Default of `shell`.
pub fn default_shell() -> (r: String)
    ensures
        r@ == "/bin/sh"@,
{
    String::from_str("/bin/sh")
}

/// Default of `shell_args`.
pub fn default_shell_args() -> (r: Vec<String>)
    ensures
        r@.len() == 1,
        r@[0]@ == "-c"@,
{
    let mut v: Vec<String> = Vec::new();
    v.push(String::from_str("-c"));
    v
}

/// Default of `watch_config`.
pub fn default_watch_config() -> (r: bool)
    ensures
        r == DEFAULT_WATCH_CONFIG,
{
    DEFAULT_WATCH_CONFIG
}

/// Default of `job_history_size`.
pub fn default_job_history_size() -> (r: usize)
    ensures
        r == DEFAULT_JOB_HISTORY_SIZE,
{
    DEFAULT_JOB_HISTORY_SIZE
}

/// Default of `max_history_size`.
pub fn default_max_history_size() -> (r: usize)
    ensures
        r == DEFAULT_MAX_HISTORY_SIZE,
{
    DEFAULT_MAX_HISTORY_SIZE
}

/// Default of `api_host`.
pub fn default_api_host() -> (r: String)
    ensures
        r@ == DEFAULT_API_HOST@,
{
    String::from_str(DEFAULT_API_HOST)
}

/// Default of `api_port`.
pub fn default_api_port() -> (r: u16)
    ensures
        r == DEFAULT_API_PORT,
{
    DEFAULT_API_PORT
}

/// Default of `timezone`.
pub fn default_timezone() -> (r: String)
    ensures
        r@ == DEFAULT_TIMEZONE@,
{
    String::from_str(DEFAULT_TIMEZONE)
}

/// Default of `shutdown_timeout`.
pub fn default_shutdown_timeout() -> (r: u64)
    ensures
        r == DEFAULT_SHUTDOWN_TIMEOUT,
{
    DEFAULT_SHUTDOWN_TIMEOUT
}

/// Default of `print_output`.
pub fn default_print_output() -> (r: bool)
    ensures
        r == DEFAULT_PRINT_OUTPUT,
{
    DEFAULT_PRINT_OUTPUT
}

/// The field values of `Settings::default()`.
pub open spec fn is_default_settings(s: Settings) -> bool {
    &&& s.working_dir is None
    &&& s.log_level@ == DEFAULT_LOG_LEVEL@
    &&& !s.json_logs
    &&& s.log_file is None
    &&& s.max_concurrent_jobs == DEFAULT_MAX_CONCURRENT_JOBS
    &&& s.shell@ == "/bin/sh"@
    &&& s.shell_args@.len() == 1
    &&& s.shell_args@[0]@ == "-c"@
    &&& s.watch_config == DEFAULT_WATCH_CONFIG
    &&& s.pid_file is None
    &&& s.job_history_size == DEFAULT_JOB_HISTORY_SIZE
    &&& s.max_history_size == DEFAULT_MAX_HISTORY_SIZE
    &&& s.api_host@ == DEFAULT_API_HOST@
    &&& s.api_port == DEFAULT_API_PORT
    &&& s.api_token is None
    &&& s.sql_file is None
    &&& s.timezone@ == DEFAULT_TIMEZONE@
    &&& s.shutdown_timeout == DEFAULT_SHUTDOWN_TIMEOUT
    &&& s.print_output == DEFAULT_PRINT_OUTPUT
}

impl Default for Settings {
    fn default() -> (r: Settings)
        ensures
            is_default_settings(r),
    {
        Settings {
            working_dir: None,
            log_level: default_log_level(),
            json_logs: false,
            log_file: None,
            max_concurrent_jobs: default_max_concurrent(),
            shell: default_shell(),
            shell_args: default_shell_args(),
            watch_config: default_watch_config(),
            pid_file: None,
            job_history_size: default_job_history_size(),
            max_history_size: default_max_history_size(),
            api_host: default_api_host(),
            api_port: default_api_port(),
            api_token: None,
            sql_file: None,
            timezone: default_timezone(),
            shutdown_timeout: default_shutdown_timeout(),
            print_output: default_print_output(),
        }
    }
}

/// The zone type of `chrono_tz`, carried through opaque.
#[verifier::external_type_specification]
#[verifier::external_body]
pub struct ExTimeZone(chrono_tz::Tz);

/// A time zone of the zone database together with the name it was found
/// under; its view is that name. Only `parse_tz` and `utc_zone` make one.
pub struct Zone {
    name: String,
    pub(crate) tz: chrono_tz::Tz,
}

impl View for Zone {
    type V = Seq<char>;

    closed spec fn view(&self) -> Seq<char> {
        self.name@
    }
}

impl Zone {
    /// The name the zone was found under.
    pub fn name(&self) -> (r: &str)
        ensures
            r@ == self@,
    {
        self.name.as_str()
    }
}

/// Whether the time-zone database of `chrono_tz` knows the IANA name.
pub uninterp spec fn tz_known(name: Seq<char>) -> bool;

/// `chrono_tz::Tz::from_str`: the zone with the given IANA name (an exact
/// lookup in the crate's table), `None` for a name the table lacks.
/// Claimed: whether there is one is a function of the name.
#[verifier::external_body]
pub fn parse_tz(name: &str) -> (r: Option<Zone>)
    ensures
        r is Some <==> tz_known(name@),
        r matches Some(z) ==> z@ == name@,
{
    match name.parse::<chrono_tz::Tz>() {
        Ok(tz) => Some(Zone { name: name.to_string(), tz }),
        Err(_) => None,
    }
}

/// `chrono_tz::UTC`, under the name "UTC" (the crate's table maps that name
/// to this zone).
#[verifier::external_body]
pub fn utc_zone() -> (r: Zone)
    ensures
        r@ == "UTC"@,
{
    Zone { name: "UTC".to_string(), tz: chrono_tz::UTC }
}

/// The name of the zone jobs are scheduled in, by priority: the `TZ`
/// environment variable, then the configured zone unless it is "System",
/// then the machine's zone, then "UTC". A name is taken only if the zone
/// database knows it.
pub open spec fn effective_timezone_name(
    configured: Seq<char>,
    tz_env: Option<Seq<char>>,
    system_tz: Option<Seq<char>>,
) -> Seq<char> {
    if tz_env is Some && tz_known(tz_env->0) {
        tz_env->0
    } else if configured != DEFAULT_TIMEZONE@ && tz_known(configured) {
        configured
    } else if system_tz is Some && tz_known(system_tz->0) {
        system_tz->0
    } else {
        "UTC"@
    }
}

/// The view of an optional string.
pub open spec fn opt_view(s: Option<&str>) -> Option<Seq<char>> {
    match s {
        Some(x) => Some(x@),
        None => None,
    }
}

impl Settings {
    /// The name of the effective timezone, given the value of the `TZ`
    /// environment variable and the machine's zone name (each if there is
    /// one).
    pub fn effective_timezone_name(&self, tz_env: Option<&str>, system_tz: Option<&str>) -> (r:
        String)
        ensures
            r@ == effective_timezone_name(self.timezone@, opt_view(tz_env), opt_view(system_tz)),
    {
        if let Some(name) = tz_env {
            if parse_tz(name).is_some() {
                return String::from_str(name);
            }
        }
        if !str_eq(self.timezone.as_str(), DEFAULT_TIMEZONE) {
            if parse_tz(self.timezone.as_str()).is_some() {
                return self.timezone.clone();
            }
        }
        if let Some(name) = system_tz {
            if parse_tz(name).is_some() {
                return String::from_str(name);
            }
        }
        String::from_str("UTC")
    }

    /// Get the effective timezone: the zone of `effective_timezone_name`.
    pub fn effective_timezone(&self, tz_env: Option<&str>, system_tz: Option<&str>) -> (r: Zone)
        ensures
            r@ == effective_timezone_name(self.timezone@, opt_view(tz_env), opt_view(system_tz)),
    {
        let name = self.effective_timezone_name(tz_env, system_tz);
        match parse_tz(name.as_str()) {
            Some(zone) => zone,
            None => {
                let u = utc_zone();
                proof {
                    reveal_strlit("UTC");
                }
                u
            },
        }
    }

    /// Get the shell command parts for executing a command
    pub fn shell_command(&self) -> (r: (&str, &[String]))
        ensures
            r.0@ == self.shell@,
            r.1@ == self.shell_args@,
    {
        (self.shell.as_str(), self.shell_args.as_slice())
    }
}

/// The local time at the instant `ms` in the zone named `zone`, as
/// `chrono` writes it with the pattern `%Y-%m-%d %H:%M:%S`; `None` when the
/// instant is out of `chrono`'s range.
pub uninterp spec fn local_time_text(zone: Seq<char>, ms: i64) -> Option<Seq<char>>;

/// `chrono::TimeZone::timestamp_millis_opt` in the zone, then
/// `DateTime::format("%Y-%m-%d %H:%M:%S")`: the local time of an instant as
/// the command line shows it. Claimed: the text is a function of the zone's
/// name and the instant.
#[verifier::external_body]
pub fn format_local_time(zone: &Zone, ms: i64) -> (r: Option<String>)
    ensures
        match r {
            Some(t) => local_time_text(zone@, ms) == Some(t@),
            None => local_time_text(zone@, ms) is None,
        },
{
    zone.tz.timestamp_millis_opt(ms).single().map(|t| t.format("%Y-%m-%d %H:%M:%S").to_string())
}

/// The local time at the instant `ms` in the zone named `zone`, as
/// `chrono`'s RFC 3339 text; `None` when the instant is out of range.
pub uninterp spec fn local_rfc3339_text(zone: Seq<char>, ms: i64) -> Option<Seq<char>>;

/// `chrono::TimeZone::timestamp_millis_opt` in the zone, then
/// `DateTime::to_rfc3339`. Claimed: the text is a function of the zone's
/// name and the instant.
#[verifier::external_body]
pub fn format_local_rfc3339(zone: &Zone, ms: i64) -> (r: Option<String>)
    ensures
        match r {
            Some(t) => local_rfc3339_text(zone@, ms) == Some(t@),
            None => local_rfc3339_text(zone@, ms) is None,
        },
{
    zone.tz.timestamp_millis_opt(ms).single().map(|t| t.to_rfc3339())
}

} // verus!
