//! How executions are stored in the history database and read back.
//! Running the SQL is the caller's.

use crate::config::job::{JobExecution, JobStatus};
use crate::config::settings::{format_local_rfc3339, local_rfc3339_text, utc_zone};
use crate::text::{push_str, string_of};
use vstd::prelude::*;

verus! {

/// The text of an optional output, empty when there is none.
pub open spec fn output_text(s: Option<String>) -> Seq<char> {
    match s {
        Some(t) => t@,
        None => Seq::empty(),
    }
}

/// The output stored for an execution: its standard output followed by its
/// standard error.
pub open spec fn stored_text(e: JobExecution) -> Seq<char> {
    output_text(e.stdout) + output_text(e.stderr)
}

/// The output stored for an execution.
pub fn stored_output(exec: &JobExecution) -> (r: String)
    ensures
        r@ == stored_text(*exec),
{
    let mut out: Vec<char> = Vec::new();
    match &exec.stdout {
        Some(s) => push_str(&mut out, s.as_str()),
        None => {},
    }
    match &exec.stderr {
        Some(s) => push_str(&mut out, s.as_str()),
        None => {},
    }
    string_of(out.as_slice())
}

/// The duration stored for an execution, in milliseconds: 0 while it has
/// not ended.
pub fn stored_duration(exec: &JobExecution) -> (r: i64)
    requires
        exec.ended_at matches Some(e) ==> i64::MIN <= e - exec.started_at <= i64::MAX,
    ensures
        r == match exec.ended_at {
            Some(e) => e - exec.started_at,
            None => 0,
        },
{
    match exec.duration() {
        Some(d) => d,
        None => 0,
    }
}

/// How an execution changes its job's statistics: one more success, or one
/// more failure for any other status.
pub fn stats_increment(status: &JobStatus) -> (r: (u64, u64))
    ensures
        r == if *status is Success {
            (1u64, 0u64)
        } else {
            (0u64, 1u64)
        },
{
    match status {
        JobStatus::Success => (1, 0),
        _ => (0, 1),
    }
}

/// The execution a stored row describes, read at `now`: it started at the
/// stored time (at `now` when that does not read as a time), it ended the
/// stored duration later, it succeeded exactly when it exited with 0, and
/// its output, when read, is its standard output.
pub open spec fn row_execution(
    r: JobExecution,
    id: uuid::Uuid,
    job_name: String,
    trigger: String,
    started_at: Option<i64>,
    now: i64,
    duration_ms: i64,
    exit_code: Option<i32>,
    output: Option<String>,
) -> bool {
    let start = match started_at {
        Some(s) => s,
        None => now,
    };
    &&& r.id == id
    &&& r.job_name == job_name
    &&& r.trigger == trigger
    &&& r.started_at == start
    &&& r.ended_at == Some((start + duration_ms) as i64)
    &&& if exit_code == Some(0i32) {
        r.status == JobStatus::Success
    } else {
        r.status matches JobStatus::Failed { error } && error@ == "Completed"@
    }
    &&& r.exit_code == exit_code
    &&& r.stdout == output
    &&& r.stderr is None
    &&& r.attempt == 1
}

/// The execution a stored row describes.
pub fn execution_from_row(
    id: uuid::Uuid,
    job_name: String,
    trigger: String,
    started_at: Option<i64>,
    now: i64,
    duration_ms: i64,
    exit_code: Option<i32>,
    output: Option<String>,
) -> (r: JobExecution)
    requires
        i64::MIN <= match started_at {
            Some(s) => s,
            None => now,
        } + duration_ms <= i64::MAX,
    ensures
        row_execution(r, id, job_name, trigger, started_at, now, duration_ms, exit_code, output),
{
    let start = match started_at {
        Some(s) => s,
        None => now,
    };
    let status = match exit_code {
        Some(0) => JobStatus::Success,
        _ => {
            let mut m: Vec<char> = Vec::new();
            push_str(&mut m, "Completed");
            JobStatus::Failed { error: string_of(m.as_slice()) }
        },
    };
    JobExecution {
        id,
        job_name,
        trigger,
        started_at: start,
        ended_at: Some(start + duration_ms),
        status,
        exit_code,
        stdout: output,
        stderr: None,
        attempt: 1,
    }
}

/// The instant, in milliseconds since the Unix epoch, that `chrono` reads
/// RFC 3339 text as; `None` when it does not accept the text.
pub uninterp spec fn rfc3339_instant(text: Seq<char>) -> Option<i64>;

/// `chrono::DateTime::parse_from_rfc3339`, then `timestamp_millis`: the
/// instant RFC 3339 text names. Claimed: the result is a function of the
/// text.
#[verifier::external_body]
pub(crate) fn parse_rfc3339_millis(text: &str) -> (r: Option<i64>)
    ensures
        r == rfc3339_instant(text@),
{
    chrono::DateTime::parse_from_rfc3339(text).ok().map(|t| t.timestamp_millis())
}

/// The identifier `uuid` reads text as; `None` when it does not accept the
/// text.
pub uninterp spec fn uuid_parse(text: Seq<char>) -> Option<uuid::Uuid>;

/// `uuid::Uuid::parse_str`: the identifier text names. Claimed: the result
/// is a function of the text.
#[verifier::external_body]
pub(crate) fn parse_uuid(text: &str) -> (r: Option<uuid::Uuid>)
    ensures
        r == uuid_parse(text@),
{
    uuid::Uuid::parse_str(text).ok()
}

/// The identifier with the given 128 bits.
pub uninterp spec fn uuid_from_bits(bits: u128) -> uuid::Uuid;

/// `uuid::Uuid::from_u128`: the identifier with the given bits (with 0, the
/// nil identifier). Claimed: the result is a function of the bits.
#[verifier::external_body]
pub(crate) fn uuid_of_bits(bits: u128) -> (r: uuid::Uuid)
    ensures
        r == uuid_from_bits(bits),
{
    uuid::Uuid::from_u128(bits)
}

/// The text `uuid` writes for an identifier.
pub uninterp spec fn uuid_text(id: uuid::Uuid) -> Seq<char>;

/// `<uuid::Uuid as Display>`, through `to_string`: the hyphenated text of an
/// identifier. Claimed: the text is a function of the identifier.
#[verifier::external_body]
pub(crate) fn format_uuid(id: &uuid::Uuid) -> (r: String)
    ensures
        r@ == uuid_text(*id),
{
    id.to_string()
}

/// The identifier stored as `text`: the one it reads as, the nil identifier
/// when it does not read as one.
pub open spec fn stored_id(text: Seq<char>) -> uuid::Uuid {
    match uuid_parse(text) {
        Some(u) => u,
        None => uuid_from_bits(0),
    }
}

/// Where a stored execution starts: at the stored instant, at `now` when
/// there is none.
pub open spec fn start_or(started_at: Option<i64>, now: i64) -> int {
    match started_at {
        Some(s) => s as int,
        None => now as int,
    }
}

/// The text an execution's identifier is stored as.
pub fn stored_id_text(id: &uuid::Uuid) -> (r: String)
    ensures
        r@ == uuid_text(*id),
{
    format_uuid(id)
}

/// The text an execution's start is stored as: the instant as RFC 3339
/// text in UTC; `None` when the instant is out of `chrono`'s range.
pub fn stored_start_text(ms: i64) -> (r: Option<String>)
    ensures
        match r {
            Some(t) => local_rfc3339_text("UTC"@, ms) == Some(t@),
            None => local_rfc3339_text("UTC"@, ms) is None,
        },
{
    let utc = utc_zone();
    format_local_rfc3339(&utc, ms)
}

/// The execution a stored row describes, read at `now`, from the stored
/// texts of its identifier and start: the identifier the text reads as (the
/// nil identifier otherwise), the start the text reads as (`now`
/// otherwise). `None` when the start plus the duration is out of range.
pub fn execution_from_stored(
    id_text: &str,
    job_name: String,
    trigger: String,
    start_text: &str,
    now: i64,
    duration_ms: i64,
    exit_code: Option<i32>,
    output: Option<String>,
) -> (r: Option<JobExecution>)
    ensures
        r is Some <==> i64::MIN <= start_or(rfc3339_instant(start_text@), now) + duration_ms
            <= i64::MAX,
        r matches Some(e) ==> row_execution(
            e,
            stored_id(id_text@),
            job_name,
            trigger,
            rfc3339_instant(start_text@),
            now,
            duration_ms,
            exit_code,
            output,
        ),
{
    let id = match parse_uuid(id_text) {
        Some(u) => u,
        None => uuid_of_bits(0),
    };
    let started_at = parse_rfc3339_millis(start_text);
    let start = match started_at {
        Some(s) => s,
        None => now,
    };
    match start.checked_add(duration_ms) {
        None => None,
        Some(_) => Some(
            execution_from_row(id, job_name, trigger, started_at, now, duration_ms, exit_code, output),
        ),
    }
}

} // verus!
