//! Reading settings and jobs from a TOML document: which keys are read,
//! their types, and the default of every key that may be left out. Keys
//! that no field reads are ignored.

use crate::config::job::Job;
use crate::config::settings::{
    default_api_host, default_api_port, default_job_history_size, default_log_level,
    default_max_concurrent, default_max_history_size, default_print_output, default_shell,
    default_shell_args, default_shutdown_timeout, default_timezone, default_watch_config,
    Settings, DEFAULT_API_HOST, DEFAULT_API_PORT, DEFAULT_JOB_HISTORY_SIZE, DEFAULT_LOG_LEVEL,
    DEFAULT_MAX_CONCURRENT_JOBS, DEFAULT_MAX_HISTORY_SIZE, DEFAULT_PRINT_OUTPUT,
    DEFAULT_SHUTDOWN_TIMEOUT, DEFAULT_TIMEZONE, DEFAULT_WATCH_CONFIG,
};
use crate::config::toml::{get, lookup, TomlValue};
use crate::text::{opt_string_view, pair_views, push_str, string_of, string_views};
use vstd::prelude::*;

verus! {

/// The text of a string value (empty for any other value).
pub open spec fn str_of(v: TomlValue) -> Seq<char> {
    match v {
        TomlValue::Str(s) => s@,
        _ => Seq::empty(),
    }
}

/// A key that is absent or holds a string.
pub open spec fn str_ok(t: Seq<(String, TomlValue)>, key: Seq<char>) -> bool {
    match get(t, key) {
        None => true,
        Some(TomlValue::Str(_)) => true,
        _ => false,
    }
}

/// A key that holds a string.
pub open spec fn required_str_ok(t: Seq<(String, TomlValue)>, key: Seq<char>) -> bool {
    get(t, key) matches Some(TomlValue::Str(_))
}

/// The string at a key, or `default` when the key is absent.
pub open spec fn str_or(t: Seq<(String, TomlValue)>, key: Seq<char>, default: Seq<char>) -> Seq<
    char,
> {
    match get(t, key) {
        Some(TomlValue::Str(s)) => s@,
        _ => default,
    }
}

/// The string at a key, if the key is present.
pub open spec fn opt_str(t: Seq<(String, TomlValue)>, key: Seq<char>) -> Option<Seq<char>> {
    match get(t, key) {
        Some(TomlValue::Str(s)) => Some(s@),
        _ => None,
    }
}

/// A key that is absent or holds a boolean.
pub open spec fn bool_ok(t: Seq<(String, TomlValue)>, key: Seq<char>) -> bool {
    match get(t, key) {
        None => true,
        Some(TomlValue::Bool(_)) => true,
        _ => false,
    }
}

/// The boolean at a key, or `default` when the key is absent.
pub open spec fn bool_or(t: Seq<(String, TomlValue)>, key: Seq<char>, default: bool) -> bool {
    match get(t, key) {
        Some(TomlValue::Bool(b)) => b,
        _ => default,
    }
}

/// The boolean at a key, if the key is present.
pub open spec fn opt_bool(t: Seq<(String, TomlValue)>, key: Seq<char>) -> Option<bool> {
    match get(t, key) {
        Some(TomlValue::Bool(b)) => Some(b),
        _ => None,
    }
}

/// A key that is absent or holds an integer in `0..=max`.
pub open spec fn int_ok(t: Seq<(String, TomlValue)>, key: Seq<char>, max: int) -> bool {
    match get(t, key) {
        None => true,
        Some(TomlValue::Int(i)) => 0 <= i <= max,
        _ => false,
    }
}

/// The integer at a key, or `default` when the key is absent.
pub open spec fn int_or(t: Seq<(String, TomlValue)>, key: Seq<char>, default: int) -> int {
    match get(t, key) {
        Some(TomlValue::Int(i)) => i as int,
        _ => default,
    }
}

/// A key that is absent or holds an array of strings.
pub open spec fn str_list_ok(t: Seq<(String, TomlValue)>, key: Seq<char>) -> bool {
    match get(t, key) {
        None => true,
        Some(TomlValue::Array(a)) => forall|i: int| 0 <= i < a@.len() ==> #[trigger] a@[i] is Str,
        _ => false,
    }
}

/// The strings of the array at a key (empty when the key is absent).
pub open spec fn str_list(t: Seq<(String, TomlValue)>, key: Seq<char>) -> Seq<Seq<char>> {
    match get(t, key) {
        Some(TomlValue::Array(a)) => strs_of(a@),
        _ => Seq::empty(),
    }
}

/// The texts of a sequence of string values.
pub open spec fn strs_of(a: Seq<TomlValue>) -> Seq<Seq<char>> {
    a.map_values(|v: TomlValue| str_of(v))
}

/// The entries of a table of string values, as texts.
pub open spec fn entries_of(e: Seq<(String, TomlValue)>) -> Seq<(Seq<char>, Seq<char>)> {
    e.map_values(|p: (String, TomlValue)| (p.0@, str_of(p.1)))
}

/// A key that is absent or holds a table of strings.
pub open spec fn str_pairs_ok(t: Seq<(String, TomlValue)>, key: Seq<char>) -> bool {
    match get(t, key) {
        None => true,
        Some(TomlValue::Table(e)) => forall|i: int|
            0 <= i < e@.len() ==> #[trigger] e@[i].1 is Str,
        _ => false,
    }
}

/// The entries of the table of strings at a key (empty when absent).
pub open spec fn str_pairs(t: Seq<(String, TomlValue)>, key: Seq<char>) -> Seq<
    (Seq<char>, Seq<char>),
> {
    match get(t, key) {
        Some(TomlValue::Table(e)) => entries_of(e@),
        _ => Seq::empty(),
    }
}

/// The text of an error about a field: what is wrong, then the key in
/// backquotes.
pub open spec fn field_message(kind: Seq<char>, key: Seq<char>) -> Seq<char> {
    kind + " `"@ + key + "`"@
}

/// The error about a key whose value has the wrong type.
pub open spec fn type_error(key: Seq<char>) -> Seq<char> {
    field_message("invalid type for field"@, key)
}

/// The error about a required key: missing, or of the wrong type.
pub open spec fn required_error(t: Seq<(String, TomlValue)>, key: Seq<char>) -> Seq<char> {
    if get(t, key) is None {
        field_message("missing field"@, key)
    } else {
        type_error(key)
    }
}

/// The error about an integer key: out of range, or of the wrong type.
pub open spec fn int_error(t: Seq<(String, TomlValue)>, key: Seq<char>) -> Seq<char> {
    if get(t, key) matches Some(TomlValue::Int(_)) {
        field_message("invalid value for field"@, key)
    } else {
        type_error(key)
    }
}

fn field_error(kind: &str, key: &str) -> (r: String)
    ensures
        r@ == field_message(kind@, key@),
{
    let mut m: Vec<char> = Vec::new();
    push_str(&mut m, kind);
    push_str(&mut m, " `");
    push_str(&mut m, key);
    push_str(&mut m, "`");
    string_of(m.as_slice())
}

/// Reads a string key, with a default.
pub fn read_str(t: &Vec<(String, TomlValue)>, key: &str, default: &str) -> (r: Result<
    String,
    String,
>)
    ensures
        r is Ok <==> str_ok(t@, key@),
        r matches Ok(s) ==> s@ == str_or(t@, key@, default@),
        r matches Err(m) ==> m@ == type_error(key@),
{
    match lookup(t, key) {
        None => Ok(String::from_str(default)),
        Some(TomlValue::Str(s)) => Ok(s.clone()),
        Some(_) => Err(field_error("invalid type for field", key)),
    }
}

/// Reads a string key that must be present.
pub fn read_required_str(t: &Vec<(String, TomlValue)>, key: &str) -> (r: Result<String, String>)
    ensures
        r is Ok <==> required_str_ok(t@, key@),
        r matches Ok(s) ==> s@ == str_of(get(t@, key@)->0),
        r matches Err(m) ==> m@ == required_error(t@, key@),
{
    match lookup(t, key) {
        None => Err(field_error("missing field", key)),
        Some(TomlValue::Str(s)) => Ok(s.clone()),
        Some(_) => Err(field_error("invalid type for field", key)),
    }
}

/// Reads an optional string key.
pub fn read_opt_str(t: &Vec<(String, TomlValue)>, key: &str) -> (r: Result<
    Option<String>,
    String,
>)
    ensures
        r is Ok <==> str_ok(t@, key@),
        r matches Ok(s) ==> opt_string_view(s) == opt_str(t@, key@),
        r matches Err(m) ==> m@ == type_error(key@),
{
    match lookup(t, key) {
        None => Ok(None),
        Some(TomlValue::Str(s)) => Ok(Some(s.clone())),
        Some(_) => Err(field_error("invalid type for field", key)),
    }
}

/// Reads a boolean key, with a default.
pub fn read_bool(t: &Vec<(String, TomlValue)>, key: &str, default: bool) -> (r: Result<
    bool,
    String,
>)
    ensures
        r is Ok <==> bool_ok(t@, key@),
        r matches Ok(b) ==> b == bool_or(t@, key@, default),
        r matches Err(m) ==> m@ == type_error(key@),
{
    match lookup(t, key) {
        None => Ok(default),
        Some(TomlValue::Bool(b)) => Ok(*b),
        Some(_) => Err(field_error("invalid type for field", key)),
    }
}

/// Reads an optional boolean key.
pub fn read_opt_bool(t: &Vec<(String, TomlValue)>, key: &str) -> (r: Result<Option<bool>, String>)
    ensures
        r is Ok <==> bool_ok(t@, key@),
        r matches Ok(b) ==> b == opt_bool(t@, key@),
        r matches Err(m) ==> m@ == type_error(key@),
{
    match lookup(t, key) {
        None => Ok(None),
        Some(TomlValue::Bool(b)) => Ok(Some(*b)),
        Some(_) => Err(field_error("invalid type for field", key)),
    }
}

/// Reads an integer key in `0..=max`, with a default.
pub fn read_int(t: &Vec<(String, TomlValue)>, key: &str, default: u64, max: u64) -> (r: Result<
    u64,
    String,
>)
    ensures
        r is Ok <==> int_ok(t@, key@, max as int),
        r matches Ok(n) ==> n == int_or(t@, key@, default as int),
        r matches Err(m) ==> m@ == int_error(t@, key@),
{
    match lookup(t, key) {
        None => Ok(default),
        Some(TomlValue::Int(i)) => {
            if *i < 0 || *i as u64 > max {
                Err(field_error("invalid value for field", key))
            } else {
                Ok(*i as u64)
            }
        },
        Some(_) => Err(field_error("invalid type for field", key)),
    }
}

/// Reads a key holding an array of strings (empty when absent).
pub fn read_str_list(t: &Vec<(String, TomlValue)>, key: &str) -> (r: Result<Vec<String>, String>)
    ensures
        r is Ok <==> str_list_ok(t@, key@),
        r matches Ok(v) ==> string_views(v@) == str_list(t@, key@),
        r matches Err(m) ==> m@ == type_error(key@),
{
    match lookup(t, key) {
        None => Ok(Vec::new()),
        Some(TomlValue::Array(a)) => {
            let mut out: Vec<String> = Vec::new();
            let mut i: usize = 0;
            while i < a.len()
                invariant
                    i <= a@.len(),
                    forall|k: int| 0 <= k < i ==> #[trigger] a@[k] is Str,
                    string_views(out@) == strs_of(a@.take(i as int)),
                    get(t@, key@) matches Some(TomlValue::Array(x)) && x@ == a@,
                decreases a@.len() - i,
            {
                match &a[i] {
                    TomlValue::Str(s) => {
                        let ghost before = out@;
                        out.push(s.clone());
                        assert(a@.take(i + 1) == a@.take(i as int).push(a@[i as int]));
                        assert(string_views(out@) =~= string_views(before).push(s@));
                        assert(strs_of(a@.take(i + 1)) =~= strs_of(a@.take(i as int)).push(
                            str_of(a@[i as int]),
                        ));
                    },
                    _ => {
                        assert(!(a@[i as int] is Str));
                        return Err(field_error("invalid type for field", key));
                    },
                }
                i = i + 1;
            }
            assert(a@.take(a@.len() as int) == a@);
            Ok(out)
        },
        Some(_) => Err(field_error("invalid type for field", key)),
    }
}

/// Reads a key holding a table of strings (empty when absent).
pub fn read_str_pairs(t: &Vec<(String, TomlValue)>, key: &str) -> (r: Result<
    Vec<(String, String)>,
    String,
>)
    ensures
        r is Ok <==> str_pairs_ok(t@, key@),
        r matches Ok(v) ==> pair_views(v@) == str_pairs(t@, key@),
        r matches Err(m) ==> m@ == type_error(key@),
{
    match lookup(t, key) {
        None => Ok(Vec::new()),
        Some(TomlValue::Table(e)) => {
            let mut out: Vec<(String, String)> = Vec::new();
            let mut i: usize = 0;
            while i < e.len()
                invariant
                    i <= e@.len(),
                    forall|k: int| 0 <= k < i ==> #[trigger] e@[k].1 is Str,
                    pair_views(out@) == entries_of(e@.take(i as int)),
                    get(t@, key@) matches Some(TomlValue::Table(x)) && x@ == e@,
                decreases e@.len() - i,
            {
                match &e[i].1 {
                    TomlValue::Str(s) => {
                        let ghost before = out@;
                        let k = e[i].0.clone();
                        let v = s.clone();
                        out.push((k, v));
                        assert(e@.take(i + 1) == e@.take(i as int).push(e@[i as int]));
                        assert(pair_views(out@) =~= pair_views(before).push((k@, v@)));
                        assert(entries_of(e@.take(i + 1)) =~= entries_of(e@.take(i as int)).push(
                            (e@[i as int].0@, str_of(e@[i as int].1)),
                        ));
                    },
                    _ => {
                        assert(!(e@[i as int].1 is Str));
                        return Err(field_error("invalid type for field", key));
                    },
                }
                i = i + 1;
            }
            assert(e@.take(e@.len() as int) == e@);
            Ok(out)
        },
        Some(_) => Err(field_error("invalid type for field", key)),
    }
}

} // verus!

verus! {

/// A job table that reads as a job: `schedule` and `command` are strings,
/// and every other job key is absent or of its type.
pub open spec fn job_table_ok(t: Seq<(String, TomlValue)>) -> bool {
    &&& required_str_ok(t, "schedule"@)
    &&& required_str_ok(t, "command"@)
    &&& str_ok(t, "description"@)
    &&& bool_ok(t, "enabled"@)
    &&& str_ok(t, "working_dir"@)
    &&& str_pairs_ok(t, "environment"@)
    &&& int_ok(t, "timeout"@, u64::MAX as int)
    &&& str_ok(t, "shell"@)
    &&& int_ok(t, "retry_count"@, u32::MAX as int)
    &&& int_ok(t, "retry_delay"@, u64::MAX as int)
    &&& str_ok(t, "user"@)
    &&& bool_ok(t, "capture_output"@)
    &&& int_ok(t, "max_output_size"@, usize::MAX as int)
    &&& bool_ok(t, "run_on_startup"@)
    &&& str_list_ok(t, "tags"@)
    &&& bool_ok(t, "print_output"@)
}

/// The job that a job table reads as: each key's value, or the key's
/// default when it is absent (`enabled` and `capture_output` true,
/// `retry_delay` 60 s, `max_output_size` 1 MiB, empty or none otherwise).
pub open spec fn job_table_is(t: Seq<(String, TomlValue)>, j: Job) -> bool {
    &&& j.schedule@ == str_or(t, "schedule"@, Seq::empty())
    &&& j.command@ == str_or(t, "command"@, Seq::empty())
    &&& j.description@ == str_or(t, "description"@, Seq::empty())
    &&& j.enabled == bool_or(t, "enabled"@, true)
    &&& opt_string_view(j.working_dir) == opt_str(t, "working_dir"@)
    &&& pair_views(j.environment@) == str_pairs(t, "environment"@)
    &&& j.timeout == int_or(t, "timeout"@, 0)
    &&& opt_string_view(j.shell) == opt_str(t, "shell"@)
    &&& j.retry_count == int_or(t, "retry_count"@, 0)
    &&& j.retry_delay == int_or(t, "retry_delay"@, 60)
    &&& opt_string_view(j.user) == opt_str(t, "user"@)
    &&& j.capture_output == bool_or(t, "capture_output"@, true)
    &&& j.max_output_size == int_or(t, "max_output_size"@, 1048576)
    &&& j.run_on_startup == bool_or(t, "run_on_startup"@, false)
    &&& string_views(j.tags@) == str_list(t, "tags"@)
    &&& j.print_output == opt_bool(t, "print_output"@)
}

/// A value that reads as a job.
pub open spec fn job_value_ok(v: TomlValue) -> bool {
    match v {
        TomlValue::Table(t) => job_table_ok(t@),
        _ => false,
    }
}

/// The job that a value reads as.
pub open spec fn job_value_is(v: TomlValue, j: Job) -> bool {
    match v {
        TomlValue::Table(t) => job_table_is(t@, j),
        _ => false,
    }
}

/// The error about a job table that does not read as a job: that of the
/// first key, in the order the keys are read, that is missing or wrong.
pub open spec fn job_table_error(t: Seq<(String, TomlValue)>) -> Seq<char> {
    if !required_str_ok(t, "schedule"@) {
        required_error(t, "schedule"@)
    } else if !required_str_ok(t, "command"@) {
        required_error(t, "command"@)
    } else if !str_ok(t, "description"@) {
        type_error("description"@)
    } else if !bool_ok(t, "enabled"@) {
        type_error("enabled"@)
    } else if !str_ok(t, "working_dir"@) {
        type_error("working_dir"@)
    } else if !str_pairs_ok(t, "environment"@) {
        type_error("environment"@)
    } else if !int_ok(t, "timeout"@, u64::MAX as int) {
        int_error(t, "timeout"@)
    } else if !str_ok(t, "shell"@) {
        type_error("shell"@)
    } else if !int_ok(t, "retry_count"@, u32::MAX as int) {
        int_error(t, "retry_count"@)
    } else if !int_ok(t, "retry_delay"@, u64::MAX as int) {
        int_error(t, "retry_delay"@)
    } else if !str_ok(t, "user"@) {
        type_error("user"@)
    } else if !bool_ok(t, "capture_output"@) {
        type_error("capture_output"@)
    } else if !int_ok(t, "max_output_size"@, usize::MAX as int) {
        int_error(t, "max_output_size"@)
    } else if !bool_ok(t, "run_on_startup"@) {
        type_error("run_on_startup"@)
    } else if !str_list_ok(t, "tags"@) {
        type_error("tags"@)
    } else {
        type_error("print_output"@)
    }
}

/// The error about a value that does not read as a job.
pub open spec fn job_value_error(v: TomlValue) -> Seq<char> {
    match v {
        TomlValue::Table(t) => job_table_error(t@),
        _ => "invalid type: a job must be a table"@,
    }
}

/// The error about the jobs of a `jobs` table: that of the first job that
/// does not read as a job.
pub open spec fn jobs_error(js: Seq<(String, TomlValue)>) -> Seq<char>
    decreases js.len(),
{
    if js.len() == 0 {
        Seq::empty()
    } else if !job_value_ok(js[0].1) {
        job_value_error(js[0].1)
    } else {
        jobs_error(js.drop_first())
    }
}

/// Reads a job from a TOML value.
pub fn decode_job(v: &TomlValue) -> (r: Result<Job, String>)
    ensures
        r is Ok <==> job_value_ok(*v),
        r matches Ok(j) ==> job_value_is(*v, j),
        r matches Err(m) ==> m@ == job_value_error(*v),
{
    let t = match v {
        TomlValue::Table(t) => t,
        _ => {
            let mut m: Vec<char> = Vec::new();
            push_str(&mut m, "invalid type: a job must be a table");
            return Err(string_of(m.as_slice()));
        },
    };
    let schedule = match read_required_str(t, "schedule") {
        Ok(x) => x,
        Err(e) => {
            return Err(e);
        },
    };
    let command = match read_required_str(t, "command") {
        Ok(x) => x,
        Err(e) => {
            return Err(e);
        },
    };
    let description = match read_str(t, "description", "") {
        Ok(x) => x,
        Err(e) => {
            return Err(e);
        },
    };
    let enabled = match read_bool(t, "enabled", crate::config::job::default_enabled()) {
        Ok(x) => x,
        Err(e) => {
            return Err(e);
        },
    };
    let working_dir = match read_opt_str(t, "working_dir") {
        Ok(x) => x,
        Err(e) => {
            return Err(e);
        },
    };
    let environment = match read_str_pairs(t, "environment") {
        Ok(x) => x,
        Err(e) => {
            return Err(e);
        },
    };
    let timeout = match read_int(t, "timeout", 0, u64::MAX) {
        Ok(x) => x,
        Err(e) => {
            return Err(e);
        },
    };
    let shell = match read_opt_str(t, "shell") {
        Ok(x) => x,
        Err(e) => {
            return Err(e);
        },
    };
    let retry_count = match read_int(t, "retry_count", 0, u32::MAX as u64) {
        Ok(x) => x,
        Err(e) => {
            return Err(e);
        },
    };
    let retry_delay = match read_int(
        t,
        "retry_delay",
        crate::config::job::default_retry_delay(),
        u64::MAX,
    ) {
        Ok(x) => x,
        Err(e) => {
            return Err(e);
        },
    };
    let user = match read_opt_str(t, "user") {
        Ok(x) => x,
        Err(e) => {
            return Err(e);
        },
    };
    let capture_output = match read_bool(
        t,
        "capture_output",
        crate::config::job::default_capture_output(),
    ) {
        Ok(x) => x,
        Err(e) => {
            return Err(e);
        },
    };
    let max_output_size = match read_int(
        t,
        "max_output_size",
        crate::config::job::default_max_output() as u64,
        usize::MAX as u64,
    ) {
        Ok(x) => x,
        Err(e) => {
            return Err(e);
        },
    };
    let run_on_startup = match read_bool(t, "run_on_startup", false) {
        Ok(x) => x,
        Err(e) => {
            return Err(e);
        },
    };
    let tags = match read_str_list(t, "tags") {
        Ok(x) => x,
        Err(e) => {
            return Err(e);
        },
    };
    let print_output = match read_opt_bool(t, "print_output") {
        Ok(x) => x,
        Err(e) => {
            return Err(e);
        },
    };
    proof {
        reveal_strlit("");
        assert(""@ =~= Seq::<char>::empty());
    }
    let j = Job {
            schedule,
            command,
            description,
            enabled,
            working_dir,
            environment,
            timeout,
            shell,
            retry_count: retry_count as u32,
            retry_delay,
            user,
            capture_output,
            max_output_size: max_output_size as usize,
            run_on_startup,
            tags,
            print_output,
        };
    assert(j.schedule@ == str_or(t@, "schedule"@, Seq::empty()));
    assert(j.description@ == str_or(t@, "description"@, Seq::empty()));
    assert(j.retry_count == int_or(t@, "retry_count"@, 0));
    assert(j.max_output_size == int_or(t@, "max_output_size"@, 1048576));
    assert(pair_views(j.environment@) == str_pairs(t@, "environment"@));
    Ok(j)
}

} // verus!

verus! {

/// A settings table whose every key is absent or of its type.
pub open spec fn settings_table_ok(t: Seq<(String, TomlValue)>) -> bool {
    &&& str_ok(t, "working_dir"@)
    &&& str_ok(t, "log_level"@)
    &&& bool_ok(t, "json_logs"@)
    &&& str_ok(t, "log_file"@)
    &&& int_ok(t, "max_concurrent_jobs"@, usize::MAX as int)
    &&& str_ok(t, "shell"@)
    &&& str_list_ok(t, "shell_args"@)
    &&& bool_ok(t, "watch_config"@)
    &&& str_ok(t, "pid_file"@)
    &&& int_ok(t, "job_history_size"@, usize::MAX as int)
    &&& int_ok(t, "max_history_size"@, usize::MAX as int)
    &&& str_ok(t, "api_host"@)
    &&& int_ok(t, "api_port"@, u16::MAX as int)
    &&& str_ok(t, "api_token"@)
    &&& str_ok(t, "sql_file"@)
    &&& str_ok(t, "timezone"@)
    &&& int_ok(t, "shutdown_timeout"@, u64::MAX as int)
    &&& bool_ok(t, "print_output"@)
}

/// The shell arguments a settings table reads as: `["-c"]` when the key is
/// absent.
pub open spec fn shell_args_of(t: Seq<(String, TomlValue)>) -> Seq<Seq<char>> {
    if get(t, "shell_args"@) is None {
        seq!["-c"@]
    } else {
        str_list(t, "shell_args"@)
    }
}

/// The settings that a settings table reads as: each key's value, or the
/// key's default when it is absent.
pub open spec fn settings_table_is(t: Seq<(String, TomlValue)>, s: Settings) -> bool {
    &&& opt_string_view(s.working_dir) == opt_str(t, "working_dir"@)
    &&& s.log_level@ == str_or(t, "log_level"@, DEFAULT_LOG_LEVEL@)
    &&& s.json_logs == bool_or(t, "json_logs"@, false)
    &&& opt_string_view(s.log_file) == opt_str(t, "log_file"@)
    &&& s.max_concurrent_jobs == int_or(
        t,
        "max_concurrent_jobs"@,
        DEFAULT_MAX_CONCURRENT_JOBS as int,
    )
    &&& s.shell@ == str_or(t, "shell"@, "/bin/sh"@)
    &&& string_views(s.shell_args@) == shell_args_of(t)
    &&& s.watch_config == bool_or(t, "watch_config"@, DEFAULT_WATCH_CONFIG)
    &&& opt_string_view(s.pid_file) == opt_str(t, "pid_file"@)
    &&& s.job_history_size == int_or(t, "job_history_size"@, DEFAULT_JOB_HISTORY_SIZE as int)
    &&& s.max_history_size == int_or(t, "max_history_size"@, DEFAULT_MAX_HISTORY_SIZE as int)
    &&& s.api_host@ == str_or(t, "api_host"@, DEFAULT_API_HOST@)
    &&& s.api_port == int_or(t, "api_port"@, DEFAULT_API_PORT as int)
    &&& opt_string_view(s.api_token) == opt_str(t, "api_token"@)
    &&& opt_string_view(s.sql_file) == opt_str(t, "sql_file"@)
    &&& s.timezone@ == str_or(t, "timezone"@, DEFAULT_TIMEZONE@)
    &&& s.shutdown_timeout == int_or(t, "shutdown_timeout"@, DEFAULT_SHUTDOWN_TIMEOUT as int)
    &&& s.print_output == bool_or(t, "print_output"@, DEFAULT_PRINT_OUTPUT)
}

/// The error about a settings table that does not read as settings: that
/// of the first key, in the order the keys are read, that is wrong.
pub open spec fn settings_table_error(t: Seq<(String, TomlValue)>) -> Seq<char> {
    if !str_ok(t, "working_dir"@) {
        type_error("working_dir"@)
    } else if !str_ok(t, "log_level"@) {
        type_error("log_level"@)
    } else if !bool_ok(t, "json_logs"@) {
        type_error("json_logs"@)
    } else if !str_ok(t, "log_file"@) {
        type_error("log_file"@)
    } else if !int_ok(t, "max_concurrent_jobs"@, usize::MAX as int) {
        int_error(t, "max_concurrent_jobs"@)
    } else if !str_ok(t, "shell"@) {
        type_error("shell"@)
    } else if !str_list_ok(t, "shell_args"@) {
        type_error("shell_args"@)
    } else if !bool_ok(t, "watch_config"@) {
        type_error("watch_config"@)
    } else if !str_ok(t, "pid_file"@) {
        type_error("pid_file"@)
    } else if !int_ok(t, "job_history_size"@, usize::MAX as int) {
        int_error(t, "job_history_size"@)
    } else if !int_ok(t, "max_history_size"@, usize::MAX as int) {
        int_error(t, "max_history_size"@)
    } else if !str_ok(t, "api_host"@) {
        type_error("api_host"@)
    } else if !int_ok(t, "api_port"@, u16::MAX as int) {
        int_error(t, "api_port"@)
    } else if !str_ok(t, "api_token"@) {
        type_error("api_token"@)
    } else if !str_ok(t, "sql_file"@) {
        type_error("sql_file"@)
    } else if !str_ok(t, "timezone"@) {
        type_error("timezone"@)
    } else if !int_ok(t, "shutdown_timeout"@, u64::MAX as int) {
        int_error(t, "shutdown_timeout"@)
    } else {
        type_error("print_output"@)
    }
}

/// Reads settings from a TOML table.
pub fn decode_settings(t: &Vec<(String, TomlValue)>) -> (r: Result<Settings, String>)
    ensures
        r is Ok <==> settings_table_ok(t@),
        r matches Ok(s) ==> settings_table_is(t@, s),
        r matches Err(m) ==> m@ == settings_table_error(t@),
{
    let working_dir = match read_opt_str(t, "working_dir") {
        Ok(x) => x,
        Err(e) => {
            return Err(e);
        },
    };
    let log_level = match read_str(t, "log_level", DEFAULT_LOG_LEVEL) {
        Ok(x) => x,
        Err(e) => {
            return Err(e);
        },
    };
    let json_logs = match read_bool(t, "json_logs", false) {
        Ok(x) => x,
        Err(e) => {
            return Err(e);
        },
    };
    let log_file = match read_opt_str(t, "log_file") {
        Ok(x) => x,
        Err(e) => {
            return Err(e);
        },
    };
    let max_concurrent_jobs = match read_int(
        t,
        "max_concurrent_jobs",
        default_max_concurrent() as u64,
        usize::MAX as u64,
    ) {
        Ok(x) => x,
        Err(e) => {
            return Err(e);
        },
    };
    let shell = match read_str(t, "shell", "/bin/sh") {
        Ok(x) => x,
        Err(e) => {
            return Err(e);
        },
    };
    let listed_args = match read_str_list(t, "shell_args") {
        Ok(x) => x,
        Err(e) => {
            return Err(e);
        },
    };
    let shell_args = if lookup(t, "shell_args").is_none() {
        default_shell_args()
    } else {
        listed_args
    };
    let watch_config = match read_bool(t, "watch_config", default_watch_config()) {
        Ok(x) => x,
        Err(e) => {
            return Err(e);
        },
    };
    let pid_file = match read_opt_str(t, "pid_file") {
        Ok(x) => x,
        Err(e) => {
            return Err(e);
        },
    };
    let job_history_size = match read_int(
        t,
        "job_history_size",
        default_job_history_size() as u64,
        usize::MAX as u64,
    ) {
        Ok(x) => x,
        Err(e) => {
            return Err(e);
        },
    };
    let max_history_size = match read_int(
        t,
        "max_history_size",
        default_max_history_size() as u64,
        usize::MAX as u64,
    ) {
        Ok(x) => x,
        Err(e) => {
            return Err(e);
        },
    };
    let api_host = match read_str(t, "api_host", DEFAULT_API_HOST) {
        Ok(x) => x,
        Err(e) => {
            return Err(e);
        },
    };
    let api_port = match read_int(t, "api_port", default_api_port() as u64, u16::MAX as u64) {
        Ok(x) => x,
        Err(e) => {
            return Err(e);
        },
    };
    let api_token = match read_opt_str(t, "api_token") {
        Ok(x) => x,
        Err(e) => {
            return Err(e);
        },
    };
    let sql_file = match read_opt_str(t, "sql_file") {
        Ok(x) => x,
        Err(e) => {
            return Err(e);
        },
    };
    let timezone = match read_str(t, "timezone", DEFAULT_TIMEZONE) {
        Ok(x) => x,
        Err(e) => {
            return Err(e);
        },
    };
    let shutdown_timeout = match read_int(
        t,
        "shutdown_timeout",
        default_shutdown_timeout(),
        u64::MAX,
    ) {
        Ok(x) => x,
        Err(e) => {
            return Err(e);
        },
    };
    let print_output = match read_bool(t, "print_output", default_print_output()) {
        Ok(x) => x,
        Err(e) => {
            return Err(e);
        },
    };
    let s = Settings {
        working_dir,
        log_level,
        json_logs,
        log_file,
        max_concurrent_jobs: max_concurrent_jobs as usize,
        shell,
        shell_args,
        watch_config,
        pid_file,
        job_history_size: job_history_size as usize,
        max_history_size: max_history_size as usize,
        api_host,
        api_port: api_port as u16,
        api_token,
        sql_file,
        timezone,
        shutdown_timeout,
        print_output,
    };
    assert(string_views(s.shell_args@) == shell_args_of(t@));
    Ok(s)
}

} // verus!
