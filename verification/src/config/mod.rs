//! Configuration: jobs, global settings and the configuration file.

pub mod decode;
pub mod job;
pub mod schedule;
pub mod settings;
pub mod toml;

pub use crate::config::job::{Job, JobExecution, JobStatus, RetryPolicy};
pub use crate::config::settings::Settings;

use crate::config::decode::{
    jobs_error, job_value_error, settings_table_error,
    str_or, decode_job, decode_settings, job_value_is, job_value_ok, settings_table_is, settings_table_ok,
};
use crate::config::job::{job_valid, validation_error_matches};
use crate::config::settings::{
    is_default_settings, DEFAULT_JOB_HISTORY_SIZE, DEFAULT_LOG_LEVEL,
    DEFAULT_MAX_CONCURRENT_JOBS, DEFAULT_MAX_HISTORY_SIZE, DEFAULT_PRINT_OUTPUT, DEFAULT_TIMEZONE,
    DEFAULT_WATCH_CONFIG,
};
use crate::config::toml::{get, keys_distinct, lemma_get_in, lookup, parse_toml, toml_document, toml_parse, TomlValue};
use crate::error::Error;
use crate::config::schedule::{cron_accepts, cron_expression};
use crate::text::{is_blank, decimal, push_decimal, push_str, str_eq, string_of};
use vstd::prelude::*;

verus! {

/// Main configuration structure. Jobs are kept in the order the file lists
/// them, each under its name.
#[derive(Debug, Clone)]
pub struct Config {
    /// Global settings
    pub settings: Settings,
    /// Job definitions
    pub jobs: Vec<(String, Job)>,
}

impl Default for Config {
    fn default() -> (r: Config)
        ensures
            is_default_settings(r.settings),
            r.jobs@.len() == 0,
    {
        Config { settings: Settings::default(), jobs: Vec::new() }
    }
}

/// A configuration document that reads as a configuration: a table whose
/// `settings` key, if present, is a table of settings, and whose `jobs` key,
/// if present, is a table of job tables.
pub open spec fn document_ok(doc: TomlValue) -> bool {
    match doc {
        TomlValue::Table(t) => {
            &&& match get(t@, "settings"@) {
                None => true,
                Some(TomlValue::Table(s)) => settings_table_ok(s@),
                _ => false,
            }
            &&& match get(t@, "jobs"@) {
                None => true,
                Some(TomlValue::Table(js)) => forall|i: int|
                    0 <= i < js@.len() ==> job_value_ok(#[trigger] js@[i].1),
                _ => false,
            }
        },
        _ => false,
    }
}

/// The configuration a document reads as: default settings when there is
/// no `settings` table, no jobs when there is no `jobs` table, and the jobs
/// under their keys, in order.
pub open spec fn document_is(doc: TomlValue, c: Config) -> bool {
    match doc {
        TomlValue::Table(t) => {
            &&& match get(t@, "settings"@) {
                None => is_default_settings(c.settings),
                Some(TomlValue::Table(s)) => settings_table_is(s@, c.settings),
                _ => false,
            }
            &&& match get(t@, "jobs"@) {
                None => c.jobs@.len() == 0,
                Some(TomlValue::Table(js)) => {
                    &&& c.jobs@.len() == js@.len()
                    &&& forall|i: int|
                        0 <= i < js@.len() ==> #[trigger] c.jobs@[i].0@ == js@[i].0@
                            && job_value_is(js@[i].1, c.jobs@[i].1)
                },
                _ => false,
            }
        },
        _ => false,
    }
}

/// A job value whose schedule the `cron` crate accepts and whose command is
/// not blank.
pub open spec fn job_value_valid(v: TomlValue) -> bool {
    match v {
        TomlValue::Table(t) => cron_accepts(cron_expression(str_or(t@, "schedule"@, Seq::empty())))
            && !is_blank(str_or(t@, "command"@, Seq::empty())),
        _ => false,
    }
}

/// Every job of a configuration document is valid.
pub open spec fn document_valid(doc: TomlValue) -> bool {
    match doc {
        TomlValue::Table(t) => match get(t@, "jobs"@) {
            Some(TomlValue::Table(js)) => forall|i: int|
                0 <= i < js@.len() ==> job_value_valid(#[trigger] js@[i].1),
            _ => true,
        },
        _ => false,
    }
}

/// Every job of the configuration is valid.
pub open spec fn config_valid(c: Config) -> bool {
    forall|i: int| 0 <= i < c.jobs@.len() ==> job_valid(#[trigger] c.jobs@[i].1)
}

/// The error `Config::validate` reports: that of the first invalid job.
pub open spec fn config_error_matches(c: Config, e: Error) -> bool {
    exists|i: int|
        #![trigger c.jobs@[i]]
        0 <= i < c.jobs@.len() && !job_valid(c.jobs@[i].1) && (forall|k: int|
            0 <= k < i ==> job_valid(#[trigger] c.jobs@[k].1)) && validation_error_matches(
            c.jobs@[i].1,
            c.jobs@[i].0@,
            e,
        )
}

/// Index of the first job with the given name, if any.
pub open spec fn first_job_index(jobs: Seq<(String, Job)>, name: Seq<char>) -> Option<int> {
    if exists|i: int| 0 <= i < jobs.len() && #[trigger] jobs[i].0@ == name {
        Some(
            choose|i: int|
                0 <= i < jobs.len() && #[trigger] jobs[i].0@ == name && forall|k: int|
                    0 <= k < i ==> #[trigger] jobs[k].0@ != name,
        )
    } else {
        None
    }
}

/// The entries of jobs that are enabled, in order.
pub open spec fn enabled_entries(jobs: Seq<(String, Job)>) -> Seq<(String, Job)>
    decreases jobs.len(),
{
    if jobs.len() == 0 {
        Seq::empty()
    } else if jobs.last().1.enabled {
        enabled_entries(jobs.drop_last()).push(jobs.last())
    } else {
        enabled_entries(jobs.drop_last())
    }
}

/// No two jobs share a name.
pub open spec fn names_distinct(jobs: Seq<(String, Job)>) -> bool {
    forall|a: int, b: int|
        0 <= a < jobs.len() && 0 <= b < jobs.len() && a != b ==> #[trigger] jobs[a].0@
            != #[trigger] jobs[b].0@
}

/// The enabled jobs are the jobs that are enabled, in their order: an entry
/// is among them exactly when it is a job and is enabled, there are as many
/// of them as there are enabled jobs, and where no two jobs share a name,
/// no two of them do.
pub proof fn law_enabled_jobs(jobs: Seq<(String, Job)>)
    ensures
        enabled_entries(jobs) == jobs.filter(|p: (String, Job)| p.1.enabled),
        forall|x: (String, Job)|
            #[trigger] enabled_entries(jobs).contains(x) <==> (jobs.contains(x) && x.1.enabled),
        names_distinct(jobs) ==> names_distinct(enabled_entries(jobs)),
    decreases jobs.len(),
{
    reveal(Seq::filter);
    if jobs.len() > 0 {
        let rest = jobs.drop_last();
        let last = jobs.last();
        law_enabled_jobs(rest);
        let er = enabled_entries(rest);
        assert forall|x: (String, Job)|
            #[trigger] enabled_entries(jobs).contains(x) <==> (jobs.contains(x) && x.1.enabled) by {
            if jobs.contains(x) && x.1.enabled {
                let j = choose|j: int| 0 <= j < jobs.len() && jobs[j] == x;
                if j < jobs.len() - 1 {
                    assert(rest[j] == x);
                    assert(rest.contains(x));
                    assert(er.contains(x));
                    if last.1.enabled {
                        let k = choose|k: int| 0 <= k < er.len() && er[k] == x;
                        assert(er.push(last)[k] == x);
                    }
                } else {
                    assert(er.push(last)[er.len() as int] == x);
                }
            }
            if enabled_entries(jobs).contains(x) {
                if last.1.enabled && x == last {
                    assert(jobs[jobs.len() - 1] == x);
                } else {
                    let k = choose|k: int| 0 <= k < enabled_entries(jobs).len() && enabled_entries(jobs)[k] == x;
                    if last.1.enabled {
                        assert(k < er.len());
                        assert(er[k] == x);
                    }
                    assert(er.contains(x));
                    let j = choose|j: int| 0 <= j < rest.len() && rest[j] == x;
                    assert(jobs[j] == x);
                }
            }
        }
        if names_distinct(jobs) {
            assert(names_distinct(rest)) by {
                assert forall|a: int, b: int|
                    0 <= a < rest.len() && 0 <= b < rest.len() && a != b implies #[trigger] rest[a].0@
                    != #[trigger] rest[b].0@ by {
                    assert(rest[a] == jobs[a]);
                    assert(rest[b] == jobs[b]);
                }
            }
            if last.1.enabled {
                let e = er.push(last);
                assert forall|a: int, b: int|
                    0 <= a < e.len() && 0 <= b < e.len() && a != b implies #[trigger] e[a].0@
                    != #[trigger] e[b].0@ by {
                    if a < er.len() && b < er.len() {
                    } else {
                        let k = if a < er.len() { a } else { b };
                        assert(er.contains(er[k]));
                        let j = choose|j: int| 0 <= j < rest.len() && rest[j] == er[k];
                        assert(jobs[j] == er[k]);
                        assert(jobs[jobs.len() - 1] == last);
                    }
                }
            }
        }
    }
}

/// The text of the configuration file that `flashcron init` writes.
pub open spec fn default_config_text() -> Seq<char> {
    "# FlashCron Configuration File\n# Documentation: https://github.com/antonchen/flashcron\n\n[settings]\n# Working directory for all jobs (default: current directory)\n# working_dir = \"/var/flashcron\"\n\n# Log level: trace, debug, info, warn, error\nlog_level = \""@
        + DEFAULT_LOG_LEVEL@
        + "\"\n\n# Enable JSON logging format\njson_logs = false\n\n# Maximum concurrent jobs (0 = unlimited)\nmax_concurrent_jobs = "@
        + decimal(DEFAULT_MAX_CONCURRENT_JOBS as nat)
        + "\n\n# Default shell for commands\nshell = \"/bin/sh\"\n\n# Whether to print command execution output to stdout/stderr\nprint_output = "@
        + bool_text(DEFAULT_PRINT_OUTPUT)
        + "\n\n# Enable config file watching for hot reload\nwatch_config = "@
        + bool_text(DEFAULT_WATCH_CONFIG)
        + "\n\n# Max history entries to keep per job. Stored in RAM.\njob_history_size = "@
        + decimal(DEFAULT_JOB_HISTORY_SIZE as nat)
        + "\n\n# Max total history entries to keep globally. Warning: affects RAM usage.\nmax_history_size = "@
        + decimal(DEFAULT_MAX_HISTORY_SIZE as nat)
        + "\n\n# Timezone for job scheduling. Priority: TZ env > config > system > UTC\n# Examples: \"System\", \"UTC\", \"Asia/Shanghai\", \"America/New_York\"\ntimezone = \""@
        + DEFAULT_TIMEZONE@ + DEFAULT_JOBS_TEXT@
}

/// The example jobs of the default configuration file.
pub const DEFAULT_JOBS_TEXT: &'static str = "\"\n\n# Example job definitions\n[jobs.hello]\nschedule = \"*/5 * * * *\"  # Every 5 minutes\ncommand = \"echo 'Hello from FlashCron!'\"\ndescription = \"A simple hello world job\"\nenabled = true\n\n[jobs.cleanup]\nschedule = \"0 3 * * *\"  # Every day at 3 AM\ncommand = \"echo 'Cleanup starting...'\"\ndescription = \"Daily cleanup task\"\nenabled = true\ntimeout = 3600  # 1 hour timeout\nretry_count = 3\nretry_delay = 60\nprint_output = false  # Override global setting for this job\n\n[jobs.backup]\nschedule = \"0 2 * * 7\"  # Every Sunday at 2 AM\ncommand = \"echo 'Backup starting...'\"\ndescription = \"Weekly backup\"\nenabled = true\nenvironment = { BACKUP_TYPE = \"full\", COMPRESS = \"true\" }\n";

/// `true` or `false` as written in TOML.
pub open spec fn bool_text(b: bool) -> Seq<char> {
    if b {
        "true"@
    } else {
        "false"@
    }
}

fn push_bool(out: &mut Vec<char>, b: bool)
    ensures
        final(out)@ == old(out)@ + bool_text(b),
{
    if b {
        push_str(out, "true");
    } else {
        push_str(out, "false");
    }
}

/// Reads the jobs of a `jobs` table, in order, under their keys.
pub fn decode_jobs(js: &Vec<(String, TomlValue)>) -> (r: Result<Vec<(String, Job)>, String>)
    ensures
        r is Ok <==> forall|i: int| 0 <= i < js@.len() ==> job_value_ok(#[trigger] js@[i].1),
        r matches Ok(jobs) ==> jobs@.len() == js@.len() && forall|i: int|
            0 <= i < js@.len() ==> #[trigger] jobs@[i].0@ == js@[i].0@ && job_value_is(
                js@[i].1,
                jobs@[i].1,
            ),
        r matches Err(m) ==> m@ == jobs_error(js@),
{
    let mut jobs: Vec<(String, Job)> = Vec::new();
    let mut i: usize = 0;
    assert(js@.skip(0) == js@);
    while i < js.len()
        invariant
            i <= js@.len(),
            jobs_error(js@) == jobs_error(js@.skip(i as int)),
            jobs@.len() == i,
            forall|k: int| 0 <= k < i ==> job_value_ok(#[trigger] js@[k].1),
            forall|k: int|
                0 <= k < i ==> #[trigger] jobs@[k].0@ == js@[k].0@ && job_value_is(
                    js@[k].1,
                    jobs@[k].1,
                ),
        decreases js@.len() - i,
    {
        assert(js@.skip(i as int)[0] == js@[i as int]);
        let job = match decode_job(&js[i].1) {
            Ok(j) => j,
            Err(e) => {
                return Err(e);
            },
        };
        assert(js@.skip(i as int).drop_first() == js@.skip(i + 1));
        jobs.push((js[i].0.clone(), job));
        i = i + 1;
    }
    Ok(jobs)
}

/// The error about a document that does not read as a configuration: it is
/// not a table; or its settings are not a table, or not settings; or its
/// jobs are not a table, or one of them is not a job (the first such).
pub open spec fn document_error(doc: TomlValue) -> Seq<char> {
    match doc {
        TomlValue::Table(t) => match get(t@, "settings"@) {
            Some(TomlValue::Table(st)) if !settings_table_ok(st@) => settings_table_error(st@),
            Some(TomlValue::Table(_)) | None => match get(t@, "jobs"@) {
                None => Seq::empty(),
                Some(TomlValue::Table(js)) => jobs_error(js@),
                _ => "invalid type for field `jobs`"@,
            },
            _ => "invalid type for field `settings`"@,
        },
        _ => "invalid type: the document must be a table"@,
    }
}

/// Reads a configuration from a TOML document.
#[verifier::spinoff_prover]
pub fn decode_config(doc: &TomlValue) -> (r: Result<Config, String>)
    ensures
        r is Ok <==> document_ok(*doc),
        r matches Ok(c) ==> document_is(*doc, c),
        r matches Err(m) ==> m@ == document_error(*doc),
{
    let t = match doc {
        TomlValue::Table(t) => t,
        _ => {
            return Err(String::from_str("invalid type: the document must be a table"));
        },
    };
    let settings = match lookup(t, "settings") {
        None => Settings::default(),
        Some(TomlValue::Table(s)) => match decode_settings(s) {
            Ok(x) => x,
            Err(e) => {
                return Err(e);
            },
        },
        Some(_) => {
            return Err(String::from_str("invalid type for field `settings`"));
        },
    };
    let jobs: Vec<(String, Job)> = match lookup(t, "jobs") {
        None => Vec::new(),
        Some(TomlValue::Table(js)) => match decode_jobs(js) {
            Ok(x) => x,
            Err(e) => {
                return Err(e);
            },
        },
        Some(_) => {
            return Err(String::from_str("invalid type for field `jobs`"));
        },
    };
    let c = Config { settings, jobs };
    Ok(c)
}

impl Config {
    /// Parse configuration from a TOML string; `path` names the file in
    /// errors. The text must be TOML that reads as a configuration, and every
    /// job must be valid.
    pub fn from_str(content: &str, path: &str) -> (r: Result<Config, Error>)
        ensures
            r is Ok <==> (toml_document(content@) matches Some(doc) && document_ok(doc)
                && document_valid(doc)),
            r matches Ok(c) ==> (toml_document(content@) matches Some(doc) && document_is(doc, c)),
            r matches Ok(c) ==> config_valid(c),
            r matches Ok(c) ==> names_distinct(c.jobs@),
            match toml_parse(content@) {
                Err(m) => (r matches Err(Error::ConfigParse { path: p, reason }) && p@ == path@
                    && reason@ == m),
                Ok(doc) => {
                    &&& !document_ok(doc) ==> (r matches Err(Error::ConfigParse { path: p, reason })
                        && p@ == path@ && reason@ == document_error(doc))
                    &&& (document_ok(doc) && r is Err) ==> (r matches Err(e) && exists|c: Config|
                        document_is(doc, c) && config_error_matches(c, e))
                },
            },
    {
        let doc = match parse_toml(content) {
            Ok(doc) => doc,
            Err(reason) => {
                return Err(Error::ConfigParse { path: String::from_str(path), reason });
            },
        };
        let config = match decode_config(&doc) {
            Ok(c) => c,
            Err(reason) => {
                return Err(Error::ConfigParse { path: String::from_str(path), reason });
            },
        };
        proof {
            if let TomlValue::Table(t) = doc {
                if let Some(TomlValue::Table(js)) = get(t@, "jobs"@) {
                    lemma_get_in(t@, "jobs"@);
                    let k = choose|k: int| 0 <= k < t@.len() && #[trigger] t@[k].1 == TomlValue::Table(js);
                    assert(t@[k].1 matches TomlValue::Table(u) ==> keys_distinct(u@));
                    assert(keys_distinct(js@));
                    assert forall|a: int, b: int|
                        0 <= a < config.jobs@.len() && 0 <= b < config.jobs@.len() && a != b implies #[trigger] config.jobs@[a].0@
                        != #[trigger] config.jobs@[b].0@ by {
                        assert(config.jobs@[a].0@ == js@[a].0@);
                        assert(config.jobs@[b].0@ == js@[b].0@);
                    }
                    assert forall|i: int| 0 <= i < js@.len() implies (job_value_valid(
                        #[trigger] js@[i].1,
                    ) <==> job_valid(config.jobs@[i].1)) by {
                        assert(config.jobs@[i].0@ == js@[i].0@);
                    }
                }
            }
        }
        match config.validate() {
            Ok(()) => Ok(config),
            Err(e) => Err(e),
        }
    }

    /// Validate the configuration: every job must be valid; the first
    /// invalid job's error is reported.
    pub fn validate(&self) -> (r: Result<(), Error>)
        ensures
            r is Ok <==> config_valid(*self),
            r matches Err(e) ==> config_error_matches(*self, e),
    {
        let mut i: usize = 0;
        while i < self.jobs.len()
            invariant
                i <= self.jobs@.len(),
                forall|k: int| 0 <= k < i ==> job_valid(#[trigger] self.jobs@[k].1),
            decreases self.jobs@.len() - i,
        {
            match self.jobs[i].1.validate(self.jobs[i].0.as_str()) {
                Ok(()) => {},
                Err(e) => {
                    assert(self.jobs@[i as int] == self.jobs@[i as int]);
                    return Err(e);
                },
            }
            i = i + 1;
        }
        Ok(())
    }

    /// Get a job by name: the first job listed under that name.
    pub fn get_job(&self, name: &str) -> (r: Option<&Job>)
        ensures
            match first_job_index(self.jobs@, name@) {
                Some(i) => r == Some(&self.jobs@[i].1),
                None => r is None,
            },
    {
        let mut i: usize = 0;
        while i < self.jobs.len()
            invariant
                i <= self.jobs@.len(),
                forall|k: int| 0 <= k < i ==> #[trigger] self.jobs@[k].0@ != name@,
            decreases self.jobs@.len() - i,
        {
            if str_eq(self.jobs[i].0.as_str(), name) {
                proof {
                    let j = first_job_index(self.jobs@, name@)->0;
                    assert(self.jobs@[i as int].0@ == name@);
                    if j != i {
                        if j < i {
                        } else {
                            assert(self.jobs@[i as int].0@ != name@);
                        }
                    }
                }
                return Some(&self.jobs[i].1);
            }
            i = i + 1;
        }
        None
    }

    /// Get all enabled jobs, in order.
    pub fn enabled_jobs(&self) -> (r: Vec<&(String, Job)>)
        ensures
            r@.map_values(|p: &(String, Job)| *p) == enabled_entries(self.jobs@),
    {
        let mut out: Vec<&(String, Job)> = Vec::new();
        let mut i: usize = 0;
        while i < self.jobs.len()
            invariant
                i <= self.jobs@.len(),
                out@.map_values(|p: &(String, Job)| *p) == enabled_entries(
                    self.jobs@.take(i as int),
                ),
            decreases self.jobs@.len() - i,
        {
            let ghost before = out@;
            assert(self.jobs@.take(i + 1).drop_last() == self.jobs@.take(i as int));
            if self.jobs[i].1.enabled {
                out.push(&self.jobs[i]);
                assert(out@.map_values(|p: &(String, Job)| *p) =~= before.map_values(
                    |p: &(String, Job)| *p,
                ).push(self.jobs@[i as int]));
            }
            i = i + 1;
        }
        assert(self.jobs@.take(self.jobs@.len() as int) == self.jobs@);
        out
    }

    /// The text of a default configuration file: the default settings and
    /// three example jobs.
    pub fn default_config() -> (r: String)
        ensures
            r@ == default_config_text(),
    {
        let mut out: Vec<char> = Vec::new();
        push_str(
            &mut out,
            "# FlashCron Configuration File\n# Documentation: https://github.com/antonchen/flashcron\n\n[settings]\n# Working directory for all jobs (default: current directory)\n# working_dir = \"/var/flashcron\"\n\n# Log level: trace, debug, info, warn, error\nlog_level = \"",
        );
        push_str(&mut out, DEFAULT_LOG_LEVEL);
        push_str(
            &mut out,
            "\"\n\n# Enable JSON logging format\njson_logs = false\n\n# Maximum concurrent jobs (0 = unlimited)\nmax_concurrent_jobs = ",
        );
        push_decimal(&mut out, DEFAULT_MAX_CONCURRENT_JOBS as u64);
        push_str(
            &mut out,
            "\n\n# Default shell for commands\nshell = \"/bin/sh\"\n\n# Whether to print command execution output to stdout/stderr\nprint_output = ",
        );
        push_bool(&mut out, DEFAULT_PRINT_OUTPUT);
        push_str(&mut out, "\n\n# Enable config file watching for hot reload\nwatch_config = ");
        push_bool(&mut out, DEFAULT_WATCH_CONFIG);
        push_str(
            &mut out,
            "\n\n# Max history entries to keep per job. Stored in RAM.\njob_history_size = ",
        );
        push_decimal(&mut out, DEFAULT_JOB_HISTORY_SIZE as u64);
        push_str(
            &mut out,
            "\n\n# Max total history entries to keep globally. Warning: affects RAM usage.\nmax_history_size = ",
        );
        push_decimal(&mut out, DEFAULT_MAX_HISTORY_SIZE as u64);
        push_str(
            &mut out,
            "\n\n# Timezone for job scheduling. Priority: TZ env > config > system > UTC\n# Examples: \"System\", \"UTC\", \"Asia/Shanghai\", \"America/New_York\"\ntimezone = \"",
        );
        push_str(&mut out, DEFAULT_TIMEZONE);
        push_str(&mut out, DEFAULT_JOBS_TEXT);
        string_of(out.as_slice())
    }
}

} // verus!
