//! What the commands print and where they look for the configuration.

use crate::config::job::{next_run_at, schedule_valid, Job, JobStatus};
use crate::config::schedule::{cron_expression, cron_runs, cron_runs_after};
use crate::config::settings::{
    format_local_rfc3339, format_local_time, local_rfc3339_text, local_time_text, Zone,
};
use crate::config::{enabled_entries, Config};
use crate::scheduler::engine::{insert_at, insert_key};
use crate::text::{
    decimal, opt_string_view, pad_right, push_decimal, push_padded, push_str, string_of,
    string_views, trim_chars, trimmed,
};
use vstd::prelude::*;

verus! {

/// The configuration file used when none is named: the one named on the
/// command line (or in `FLASHCRON_CONFIG`), then the one a running daemon
/// recorded when that file exists, then `flashcron.toml`.
pub open spec fn config_path_choice(cli: Option<Seq<char>>, saved: Option<Seq<char>>) -> Seq<
    char,
> {
    match cli {
        Some(p) => p,
        None => match saved {
            Some(p) => p,
            None => "flashcron.toml"@,
        },
    }
}

/// Choose the configuration file; `saved` is the path a running daemon
/// recorded, given only when that file exists.
pub fn resolve_config_path(cli_config: Option<String>, saved: Option<String>) -> (r: String)
    ensures
        r@ == config_path_choice(opt_string_view(cli_config), opt_string_view(saved)),
{
    match cli_config {
        Some(p) => p,
        None => match saved {
            Some(p) => p,
            None => String::from_str("flashcron.toml"),
        },
    }
}

/// The path a daemon's state file records: its text without surrounding
/// blanks.
pub fn saved_config_path(content: &str) -> (r: String)
    ensures
        r@ == trimmed(content@),
{
    trim_chars(content)
}

/// "enabled" or "disabled".
pub open spec fn enabled_word(enabled: bool) -> Seq<char> {
    if enabled {
        "enabled"@
    } else {
        "disabled"@
    }
}

/// The line that describes a job in the report of `flashcron validate`.
pub open spec fn job_line(e: (String, crate::config::job::Job)) -> Seq<char> {
    "  - "@ + e.0@ + " ["@ + enabled_word(e.1.enabled) + "]: "@ + e.1.schedule@
}

/// The lines `flashcron validate` prints for a valid configuration after
/// saying so: a warning when a job may keep more history than all jobs
/// together, the job counts, and a line per job.
pub open spec fn validation_lines(c: Config) -> Seq<Seq<char>> {
    let s = c.settings;
    let warning = if s.job_history_size > s.max_history_size {
        seq![
            "! Warning: job_history_size ("@ + decimal(s.job_history_size as nat)
                + ") is greater than max_history_size ("@ + decimal(s.max_history_size as nat)
                + ")"@,
            "  Individual job history will be limited by the global maximum."@,
        ]
    } else {
        Seq::empty()
    };
    warning + seq![
        "  Jobs: "@ + decimal(c.jobs@.len()) + " total, "@ + decimal(
            enabled_entries(c.jobs@).len(),
        ) + " enabled"@,
    ] + c.jobs@.map_values(|e: (String, crate::config::job::Job)| job_line(e))
}

/// The report of `flashcron validate` on a valid configuration.
pub fn validation_report(config: &Config) -> (r: Vec<String>)
    ensures
        string_views(r@) == validation_lines(*config),
{
    let s = &config.settings;
    let mut lines: Vec<String> = Vec::new();
    let ghost warning: Seq<Seq<char>> = if s.job_history_size > s.max_history_size {
        seq![
            "! Warning: job_history_size ("@ + decimal(s.job_history_size as nat)
                + ") is greater than max_history_size ("@ + decimal(s.max_history_size as nat)
                + ")"@,
            "  Individual job history will be limited by the global maximum."@,
        ]
    } else {
        Seq::empty()
    };
    if s.job_history_size > s.max_history_size {
        let mut w: Vec<char> = Vec::new();
        push_str(&mut w, "! Warning: job_history_size (");
        push_decimal(&mut w, s.job_history_size as u64);
        push_str(&mut w, ") is greater than max_history_size (");
        push_decimal(&mut w, s.max_history_size as u64);
        push_str(&mut w, ")");
        lines.push(string_of(w.as_slice()));
        lines.push(String::from_str("  Individual job history will be limited by the global maximum."));
    }
    assert(string_views(lines@) =~= warning);
    let enabled = config.enabled_jobs();
    let mut c: Vec<char> = Vec::new();
    push_str(&mut c, "  Jobs: ");
    push_decimal(&mut c, config.jobs.len() as u64);
    push_str(&mut c, " total, ");
    push_decimal(&mut c, enabled.len() as u64);
    push_str(&mut c, " enabled");
    let ghost before = lines@;
    lines.push(string_of(c.as_slice()));
    proof {
        assert(enabled@.len() == enabled_entries(config.jobs@).len()) by {
            assert(enabled@.map_values(|p: &(String, crate::config::job::Job)| *p).len()
                == enabled@.len());
        }
        assert(string_views(lines@) =~= string_views(before).push(lines@.last()@));
    }
    let ghost head = string_views(lines@);
    let ghost per_job = config.jobs@.map_values(|e: (String, crate::config::job::Job)| job_line(e));
    let mut i: usize = 0;
    while i < config.jobs.len()
        invariant
            i <= config.jobs@.len(),
            head.len() <= string_views(lines@).len(),
            per_job == config.jobs@.map_values(
                |e: (String, crate::config::job::Job)| job_line(e),
            ),
            string_views(lines@) == head + per_job.take(i as int),
        decreases config.jobs@.len() - i,
    {
        let mut l: Vec<char> = Vec::new();
        push_str(&mut l, "  - ");
        push_str(&mut l, config.jobs[i].0.as_str());
        push_str(&mut l, " [");
        if config.jobs[i].1.enabled {
            push_str(&mut l, "enabled");
        } else {
            push_str(&mut l, "disabled");
        }
        push_str(&mut l, "]: ");
        push_str(&mut l, config.jobs[i].1.schedule.as_str());
        let ghost prev = lines@;
        lines.push(string_of(l.as_slice()));
        proof {
            assert(l@ =~= job_line(config.jobs@[i as int]));
            assert(string_views(lines@) =~= string_views(prev).push(l@));
            assert(per_job.take(i + 1) =~= per_job.take(i as int).push(per_job[i as int]));
        }
        i = i + 1;
    }
    assert(per_job.take(config.jobs@.len() as int) =~= per_job);
    lines
}

/// The head of the table of `flashcron list`.
pub open spec fn list_header_line(zone: Seq<char>) -> Seq<char> {
    pad_right("NAME"@, 20) + " "@ + pad_right("SCHEDULE"@, 20) + " "@ + pad_right("STATUS"@, 10)
        + " NEXT RUN ("@ + zone + ")"@
}

/// A row of the table of `flashcron list`.
pub open spec fn list_row_line(
    name: Seq<char>,
    schedule: Seq<char>,
    enabled: bool,
    next_run: Seq<char>,
) -> Seq<char> {
    pad_right(name, 20) + " "@ + pad_right(schedule, 20) + " "@ + pad_right(enabled_word(enabled), 10)
        + " "@ + next_run
}

/// The head of the table of `flashcron list`, for the zone run times are
/// shown in.
pub fn list_header(zone: &str) -> (r: String)
    ensures
        r@ == list_header_line(zone@),
{
    let mut out: Vec<char> = Vec::new();
    push_padded(&mut out, "NAME", 20);
    push_str(&mut out, " ");
    push_padded(&mut out, "SCHEDULE", 20);
    push_str(&mut out, " ");
    push_padded(&mut out, "STATUS", 10);
    push_str(&mut out, " NEXT RUN (");
    push_str(&mut out, zone);
    push_str(&mut out, ")");
    assert(out@ =~= list_header_line(zone@));
    string_of(out.as_slice())
}

/// A row of the table of `flashcron list`; `next_run` is the next run time
/// as shown, or "-".
pub fn list_row(name: &str, schedule: &str, enabled: bool, next_run: &str) -> (r: String)
    ensures
        r@ == list_row_line(name@, schedule@, enabled, next_run@),
{
    let mut out: Vec<char> = Vec::new();
    push_padded(&mut out, name, 20);
    push_str(&mut out, " ");
    push_padded(&mut out, schedule, 20);
    push_str(&mut out, " ");
    if enabled {
        push_padded(&mut out, "enabled", 10);
    } else {
        push_padded(&mut out, "disabled", 10);
    }
    push_str(&mut out, " ");
    push_str(&mut out, next_run);
    assert(out@ =~= list_row_line(name@, schedule@, enabled, next_run@));
    string_of(out.as_slice())
}

/// The runs after inserting, in order, a run of job `name` at each of
/// `times`, each after every run that is not later.
pub open spec fn runs_with(
    runs: Seq<(Seq<char>, i64)>,
    name: Seq<char>,
    times: Seq<i64>,
) -> Seq<(Seq<char>, i64)>
    decreases times.len(),
{
    if times.len() == 0 {
        runs
    } else {
        insert_key(runs_with(runs, name, times.drop_last()), (name, times.last()))
    }
}

/// The first `count` upcoming runs of each listed job after `now`, merged
/// in order of time (runs at the same time in the order of the list).
pub open spec fn merged_runs(
    entries: Seq<(String, crate::config::job::Job)>,
    zone: Seq<char>,
    now: i64,
    count: nat,
) -> Seq<(Seq<char>, i64)>
    decreases entries.len(),
{
    if entries.len() == 0 {
        Seq::empty()
    } else {
        let before = merged_runs(entries.drop_last(), zone, now, count);
        let e = entries.last();
        if schedule_valid(e.1) {
            runs_with(before, e.0@, cron_runs(cron_expression(e.1.schedule@), zone, now, count))
        } else {
            before
        }
    }
}

/// What `flashcron schedule` shows: the first `count` of the merged
/// upcoming runs of the enabled jobs.
pub open spec fn upcoming_runs_of(c: Config, zone: Seq<char>, now: i64, count: nat) -> Seq<
    (Seq<char>, i64),
> {
    let all = merged_runs(enabled_entries(c.jobs@), zone, now, count);
    if all.len() > count {
        all.take(count as int)
    } else {
        all
    }
}

/// The views of a list of runs.
pub open spec fn run_views(runs: Seq<(String, i64)>) -> Seq<(Seq<char>, i64)> {
    runs.map_values(|r: (String, i64)| (r.0@, r.1))
}

/// Insert a run after every run that is not later than it.
fn insert_run(runs: &mut Vec<(String, i64)>, name: String, at: i64)
    ensures
        run_views(final(runs)@) == insert_key(run_views(old(runs)@), (name@, at)),
{
    let ghost ks = run_views(runs@);
    let mut i: usize = runs.len();
    assert(ks.take(i as int) =~= ks);
    while i > 0 && runs[i - 1].1 > at
        invariant
            i <= runs@.len(),
            runs@ == old(runs)@,
            ks == run_views(runs@),
            insert_at(ks, at) == insert_at(ks.take(i as int), at),
        decreases i,
    {
        assert(ks.take(i as int).drop_last() =~= ks.take(i - 1));
        i = i - 1;
    }
    proof {
        if i > 0 {
            assert(ks.take(i as int).last() == ks[i - 1]);
        }
        assert(insert_at(ks.take(i as int), at) == i);
    }
    let ghost nv = (name@, at);
    runs.insert(i, (name, at));
    assert(run_views(runs@) =~= ks.insert(i as int, nv));
}

/// The upcoming runs `flashcron schedule` shows, after `now`.
pub fn upcoming_runs(config: &Config, zone: &Zone, now: i64, count: usize) -> (r: Vec<(String, i64)>)
    ensures
        run_views(r@) == upcoming_runs_of(*config, zone@, now, count as nat),
{
    let enabled = config.enabled_jobs();
    let ghost entries = enabled@.map_values(|p: &(String, crate::config::job::Job)| *p);
    assert(entries == enabled_entries(config.jobs@));
    let mut runs: Vec<(String, i64)> = Vec::new();
    let mut i: usize = 0;
    while i < enabled.len()
        invariant
            i <= enabled@.len(),
            entries == enabled@.map_values(|p: &(String, crate::config::job::Job)| *p),
            run_views(runs@) == merged_runs(entries.take(i as int), zone@, now, count as nat),
        decreases enabled@.len() - i,
    {
        assert(entries.take(i + 1).drop_last() =~= entries.take(i as int));
        assert(entries.take(i + 1).last() == entries[i as int]);
        let name = &enabled[i].0;
        let job = &enabled[i].1;
        match job.parse_schedule() {
            Ok(schedule) => {
                let times = cron_runs_after(&schedule, zone, now, count);
                let ghost base = run_views(runs@);
                let mut k: usize = 0;
                while k < times.len()
                    invariant
                        k <= times@.len(),
                        run_views(runs@) == runs_with(base, name@, times@.take(k as int)),
                    decreases times@.len() - k,
                {
                    assert(times@.take(k + 1).drop_last() =~= times@.take(k as int));
                    insert_run(&mut runs, name.clone(), times[k]);
                    k = k + 1;
                }
                assert(times@.take(times@.len() as int) =~= times@);
            },
            Err(_) => {},
        }
        i = i + 1;
    }
    assert(entries.take(enabled@.len() as int) =~= entries);
    if runs.len() > count {
        runs.truncate(count);
    }
    proof {
        let all = merged_runs(entries, zone@, now, count as nat);
        if all.len() > count {
            assert(run_views(runs@) =~= all.take(count as int));
        }
    }
    runs
}

/// The text of a status in the history table.
pub open spec fn status_word(s: JobStatus) -> Seq<char> {
    match s {
        JobStatus::Success => "Success"@,
        JobStatus::Failed { .. } => "Failed"@,
        JobStatus::Timeout => "Timeout"@,
        _ => "Unknown"@,
    }
}

/// The text of a status in the report of one execution.
pub open spec fn status_detail(s: JobStatus) -> Seq<char> {
    match s {
        JobStatus::Failed { error } => "Failed: "@ + error@,
        _ => status_word(s),
    }
}

/// The text of a status in the history table.
pub fn history_status(status: &JobStatus) -> (r: String)
    ensures
        r@ == status_word(*status),
{
    match status {
        JobStatus::Success => String::from_str("Success"),
        JobStatus::Failed { .. } => String::from_str("Failed"),
        JobStatus::Timeout => String::from_str("Timeout"),
        _ => String::from_str("Unknown"),
    }
}

/// The text of a status in the report of one execution.
pub fn execution_status(status: &JobStatus) -> (r: String)
    ensures
        r@ == status_detail(*status),
{
    match status {
        JobStatus::Failed { error } => {
            let mut out: Vec<char> = Vec::new();
            push_str(&mut out, "Failed: ");
            push_str(&mut out, error.as_str());
            string_of(out.as_slice())
        },
        _ => history_status(status),
    }
}

/// The address of the history of the daemon's API, at most `limit` entries,
/// of one job when a name is given.
pub open spec fn history_address(base: Seq<char>, limit: nat, job_name: Option<Seq<char>>) -> Seq<
    char,
> {
    base + "/api/history?limit="@ + decimal(limit) + match job_name {
        Some(n) => "&job_name="@ + n,
        None => Seq::empty(),
    }
}

/// The address of the history of the daemon's API.
pub fn history_url(base: &str, limit: usize, job_name: Option<&str>) -> (r: String)
    ensures
        r@ == history_address(
            base@,
            limit as nat,
            match job_name {
                Some(n) => Some(n@),
                None => None,
            },
        ),
{
    let mut out: Vec<char> = Vec::new();
    push_str(&mut out, base);
    push_str(&mut out, "/api/history?limit=");
    push_decimal(&mut out, limit as u64);
    match job_name {
        Some(n) => {
            push_str(&mut out, "&job_name=");
            push_str(&mut out, n);
        },
        None => {},
    }
    string_of(out.as_slice())
}

/// The address of one execution in the daemon's API.
pub fn execution_url(base: &str, execution_id: &str) -> (r: String)
    ensures
        r@ == base@ + "/api/history/"@ + execution_id@,
{
    let mut out: Vec<char> = Vec::new();
    push_str(&mut out, base);
    push_str(&mut out, "/api/history/");
    push_str(&mut out, execution_id);
    string_of(out.as_slice())
}

/// The output an execution report shows: the text without surrounding
/// blanks, or nothing when that is empty.
pub fn shown_output(output: Option<&str>) -> (r: Option<String>)
    ensures
        match output {
            Some(o) => if trimmed(o@).len() > 0 {
                r matches Some(t) && t@ == trimmed(o@)
            } else {
                r is None
            },
            None => r is None,
        },
{
    match output {
        Some(o) => {
            let t = trim_chars(o);
            if t.as_str().is_empty() {
                None
            } else {
                Some(t)
            }
        },
        None => None,
    }
}

/// An instant as the command line shows it in a zone: its local time, or
/// "-" when it is out of range.
pub open spec fn shown_time(zone: Seq<char>, ms: i64) -> Seq<char> {
    match local_time_text(zone, ms) {
        Some(t) => t,
        None => "-"@,
    }
}

/// An instant as the command line shows it in a zone.
pub fn time_text(zone: &Zone, ms: i64) -> (r: String)
    ensures
        r@ == shown_time(zone@, ms),
{
    match format_local_time(zone, ms) {
        Some(t) => t,
        None => String::from_str("-"),
    }
}

/// A job's next run after `now` as the table of `flashcron list` shows it,
/// or "-" when it has none.
pub fn next_run_text(job: &Job, zone: &Zone, now: i64) -> (r: String)
    ensures
        r@ == match next_run_at(*job, zone@, now) {
            Some(t) => shown_time(zone@, t),
            None => "-"@,
        },
{
    match job.next_run_after(zone, now) {
        Some(t) => time_text(zone, t),
        None => String::from_str("-"),
    }
}

/// A job's next run after `now` as RFC 3339 text in the zone, as the JSON
/// of `flashcron list` shows it.
pub fn next_run_rfc3339(job: &Job, zone: &Zone, now: i64) -> (r: Option<String>)
    ensures
        match next_run_at(*job, zone@, now) {
            Some(t) => match r {
                Some(s) => local_rfc3339_text(zone@, t) == Some(s@),
                None => local_rfc3339_text(zone@, t) is None,
            },
            None => r is None,
        },
{
    match job.next_run_after(zone, now) {
        Some(t) => format_local_rfc3339(zone, t),
        None => None,
    }
}

} // verus!
