//! Log settings and the layout of log lines. Writing the lines, and the
//! time stamp at their head, are the caller's.

use crate::config::settings::Settings;
use crate::text::{
    chars_eq, chars_of, lower_ascii, pad_right, pair_views, push_padded, push_str, string_of,
    to_ascii_lower,
};
use vstd::prelude::*;

verus! {

/// The level of a log record.
#[derive(Debug, Clone, Copy, PartialEq, Eq, Structural)]
pub enum LogLevel {
    Trace,
    Debug,
    Info,
    Warn,
    Error,
}

/// The level a name selects, compared without regard to ASCII case (no
/// other character lowercases to a letter of these names); any other name
/// selects `Info`.
pub open spec fn level_named(name: Seq<char>) -> LogLevel {
    let n = lower_ascii(name);
    if n == "trace"@ {
        LogLevel::Trace
    } else if n == "debug"@ {
        LogLevel::Debug
    } else if n == "info"@ {
        LogLevel::Info
    } else if n == "warn"@ {
        LogLevel::Warn
    } else if n == "error"@ {
        LogLevel::Error
    } else {
        LogLevel::Info
    }
}

/// The name of a level as log lines show it.
pub open spec fn level_text(level: LogLevel) -> Seq<char> {
    match level {
        LogLevel::Trace => "TRACE"@,
        LogLevel::Debug => "DEBUG"@,
        LogLevel::Info => "INFO"@,
        LogLevel::Warn => "WARN"@,
        LogLevel::Error => "ERROR"@,
    }
}

/// The level a name selects.
pub fn level_for(name: &str) -> (r: LogLevel)
    ensures
        r == level_named(name@),
{
    let low = to_ascii_lower(name);
    if chars_eq(low.as_slice(), chars_of("trace").as_slice()) {
        LogLevel::Trace
    } else if chars_eq(low.as_slice(), chars_of("debug").as_slice()) {
        LogLevel::Debug
    } else if chars_eq(low.as_slice(), chars_of("info").as_slice()) {
        LogLevel::Info
    } else if chars_eq(low.as_slice(), chars_of("warn").as_slice()) {
        LogLevel::Warn
    } else if chars_eq(low.as_slice(), chars_of("error").as_slice()) {
        LogLevel::Error
    } else {
        LogLevel::Info
    }
}

/// The level and the format of the log: the command line's level before
/// the configured one, and JSON when either asks for it.
pub fn log_settings(cli_level: Option<&str>, cli_json: bool, settings: &Settings) -> (r: (
    LogLevel,
    bool,
))
    ensures
        r.0 == level_named(
            match cli_level {
                Some(l) => l@,
                None => settings.log_level@,
            },
        ),
        r.1 == (cli_json || settings.json_logs),
{
    let level = match cli_level {
        Some(l) => level_for(l),
        None => level_for(settings.log_level.as_str()),
    };
    (level, cli_json || settings.json_logs)
}

/// The name of a level padded to five characters, as text lines show it.
pub fn level_label(level: LogLevel) -> (r: String)
    ensures
        r@ == pad_right(level_text(level), 5),
{
    let mut out: Vec<char> = Vec::new();
    match level {
        LogLevel::Trace => push_padded(&mut out, "TRACE", 5),
        LogLevel::Debug => push_padded(&mut out, "DEBUG", 5),
        LogLevel::Info => push_padded(&mut out, "INFO", 5),
        LogLevel::Warn => push_padded(&mut out, "WARN", 5),
        LogLevel::Error => push_padded(&mut out, "ERROR", 5),
    }
    string_of(out.as_slice())
}

/// What the fields of a record contribute to a text line: the other
/// fields as `key=value` separated by spaces, and the last job name
/// (`job_name` or `job`), output and status.
pub open spec fn kv_fields(kvs: Seq<(Seq<char>, Seq<char>)>) -> (
    Seq<char>,
    Option<Seq<char>>,
    Option<Seq<char>>,
    Option<Seq<char>>,
)
    decreases kvs.len(),
{
    if kvs.len() == 0 {
        (Seq::empty(), None, None, None)
    } else {
        let before = kv_fields(kvs.drop_last());
        let k = kvs.last().0;
        let v = kvs.last().1;
        if k == "job_name"@ || k == "job"@ {
            (before.0, Some(v), before.2, before.3)
        } else if k == "output"@ {
            (before.0, before.1, Some(v), before.3)
        } else if k == "status"@ {
            (before.0, before.1, before.2, Some(v))
        } else {
            (
                if before.0.len() == 0 {
                    k + "="@ + v
                } else {
                    before.0 + " "@ + k + "="@ + v
                },
                before.1,
                before.2,
                before.3,
            )
        }
    }
}

/// The text of a log line after its time stamp and level: a job's output
/// or status is shown with the job, the message otherwise, and the other
/// fields follow.
pub open spec fn text_body(kvs: Seq<(Seq<char>, Seq<char>)>, message: Seq<char>) -> Seq<char> {
    let f = kv_fields(kvs);
    let main = text_main(f.1, f.2, f.3, message);
    if f.0.len() == 0 {
        main
    } else if main.len() == 0 {
        f.0
    } else {
        main + " "@ + f.0
    }
}

/// The head of a text line: the job's output, or its status, or the
/// message with the job, or the message alone when there is no job.
pub open spec fn text_main(
    job: Option<Seq<char>>,
    output: Option<Seq<char>>,
    status: Option<Seq<char>>,
    message: Seq<char>,
) -> Seq<char> {
    match job {
        Some(j) => match output {
            Some(o) => "job="@ + j + " output: "@ + o,
            None => match status {
                Some(s) => "job="@ + j + " status: "@ + s,
                None => if message.len() > 0 {
                    message + " job="@ + j
                } else {
                    "job="@ + j
                },
            },
        },
        None => message,
    }
}

fn key_is(k: &str, name: &str) -> (r: bool)
    ensures
        r == (k@ == name@),
{
    chars_eq(chars_of(k).as_slice(), chars_of(name).as_slice())
}

/// The text of a log line after its time stamp and level.
pub fn text_log_body(kvs: &Vec<(String, String)>, message: &str) -> (r: String)
    ensures
        r@ == text_body(pair_views(kvs@), message@),
{
    let ghost views = pair_views(kvs@);
    let mut rest: Vec<char> = Vec::new();
    let mut job: Option<usize> = None;
    let mut output: Option<usize> = None;
    let mut status: Option<usize> = None;
    let mut i: usize = 0;
    while i < kvs.len()
        invariant
            i <= kvs@.len(),
            views == pair_views(kvs@),
            ({
                let f = kv_fields(views.take(i as int));
                &&& rest@ == f.0
                &&& match job {
                    Some(j) => j < i && f.1 == Some(views[j as int].1),
                    None => f.1 is None,
                }
                &&& match output {
                    Some(j) => j < i && f.2 == Some(views[j as int].1),
                    None => f.2 is None,
                }
                &&& match status {
                    Some(j) => j < i && f.3 == Some(views[j as int].1),
                    None => f.3 is None,
                }
            }),
        decreases kvs@.len() - i,
    {
        assert(views.take(i + 1).drop_last() =~= views.take(i as int));
        assert(views.take(i + 1).last() == views[i as int]);
        let k = kvs[i].0.as_str();
        if key_is(k, "job_name") || key_is(k, "job") {
            job = Some(i);
        } else if key_is(k, "output") {
            output = Some(i);
        } else if key_is(k, "status") {
            status = Some(i);
        } else {
            if rest.len() > 0 {
                push_str(&mut rest, " ");
            }
            push_str(&mut rest, k);
            push_str(&mut rest, "=");
            push_str(&mut rest, kvs[i].1.as_str());
            proof {
                let f = kv_fields(views.take(i as int));
                if f.0.len() == 0 {
                    assert(rest@ =~= views[i as int].0 + "="@ + views[i as int].1);
                } else {
                    assert(rest@ =~= f.0 + " "@ + views[i as int].0 + "="@ + views[i as int].1);
                }
            }
        }
        i = i + 1;
    }
    assert(views.take(kvs@.len() as int) =~= views);
    let mut out: Vec<char> = Vec::new();
    match job {
        Some(j) => {
            match output {
                Some(o) => {
                    push_str(&mut out, "job=");
                    push_str(&mut out, kvs[j].1.as_str());
                    push_str(&mut out, " output: ");
                    push_str(&mut out, kvs[o].1.as_str());
                },
                None => match status {
                    Some(s) => {
                        push_str(&mut out, "job=");
                        push_str(&mut out, kvs[j].1.as_str());
                        push_str(&mut out, " status: ");
                        push_str(&mut out, kvs[s].1.as_str());
                    },
                    None => {
                        if !message.is_empty() {
                            push_str(&mut out, message);
                            push_str(&mut out, " job=");
                        } else {
                            push_str(&mut out, "job=");
                        }
                        push_str(&mut out, kvs[j].1.as_str());
                    },
                },
            }
        },
        None => push_str(&mut out, message),
    }
    let ghost fv = kv_fields(views);
    assert(out@ =~= text_main(fv.1, fv.2, fv.3, message@));
    let ghost main = out@;
    if rest.len() > 0 {
        if out.len() > 0 {
            push_str(&mut out, " ");
        }
        let ghost before = out@;
        let mut n: usize = 0;
        while n < rest.len()
            invariant
                n <= rest@.len(),
                out@ == before + rest@.take(n as int),
            decreases rest@.len() - n,
        {
            out.push(rest[n]);
            n = n + 1;
            assert(out@ =~= before + rest@.take(n as int));
        }
        assert(rest@.take(rest@.len() as int) =~= rest@);
    }
    assert(out@ =~= text_body(views, message@));
    string_of(out.as_slice())
}

/// The key a field has in a JSON line: `job_name` is shown as `job`.
pub open spec fn json_key(k: Seq<char>) -> Seq<char> {
    if k == "job_name"@ {
        "job"@
    } else {
        k
    }
}

/// The fields of a JSON line's message, in order (a later field replaces an
/// earlier one of the same key), or none when the record has no fields and
/// the message is shown as plain text.
pub open spec fn json_fields_of(kvs: Seq<(Seq<char>, Seq<char>)>, message: Seq<char>) -> Option<
    Seq<(Seq<char>, Seq<char>)>,
> {
    if kvs.len() == 0 {
        None
    } else {
        let f = kvs.map_values(|p: (Seq<char>, Seq<char>)| (json_key(p.0), p.1));
        Some(
            if message.len() > 0 {
                f.push(("message"@, message))
            } else {
                f
            },
        )
    }
}

/// The fields of a JSON line's message, or `None` for a plain message.
pub fn json_log_fields(kvs: &Vec<(String, String)>, message: &str) -> (r: Option<
    Vec<(String, String)>,
>)
    ensures
        match r {
            Some(v) => json_fields_of(pair_views(kvs@), message@) == Some(pair_views(v@)),
            None => json_fields_of(pair_views(kvs@), message@) is None,
        },
{
    if kvs.len() == 0 {
        return None;
    }
    let ghost views = pair_views(kvs@);
    let ghost f = views.map_values(|p: (Seq<char>, Seq<char>)| (json_key(p.0), p.1));
    let mut out: Vec<(String, String)> = Vec::new();
    let mut i: usize = 0;
    while i < kvs.len()
        invariant
            i <= kvs@.len(),
            views == pair_views(kvs@),
            f == views.map_values(|p: (Seq<char>, Seq<char>)| (json_key(p.0), p.1)),
            pair_views(out@) == f.take(i as int),
        decreases kvs@.len() - i,
    {
        let key = if key_is(kvs[i].0.as_str(), "job_name") {
            String::from_str("job")
        } else {
            kvs[i].0.clone()
        };
        let ghost before = out@;
        let value = kvs[i].1.clone();
        assert(key@ == json_key(views[i as int].0));
        out.push((key, value));
        assert(pair_views(out@) =~= pair_views(before).push((key@, value@)));
        assert(f[i as int] == (json_key(views[i as int].0), views[i as int].1));
        assert(f.take(i + 1) =~= f.take(i as int).push(f[i as int]));
        i = i + 1;
    }
    assert(f.take(kvs@.len() as int) =~= f);
    assert(pair_views(out@) =~= f);
    if !message.is_empty() {
        let ghost before = out@;
        out.push((String::from_str("message"), String::from_str(message)));
        assert(pair_views(out@) =~= pair_views(before).push(("message"@, message@)));
        assert(pair_views(out@) =~= f.push(("message"@, message@)));
    }
    assert(json_fields_of(views, message@) == Some(pair_views(out@)));
    Some(out)
}

/// The JSON text `serde_json` writes for a log line whose message is
/// plain text: an object with `timestamp`, `level` and `message`.
pub uninterp spec fn json_plain_text(timestamp: Seq<char>, level: Seq<char>, message: Seq<char>) -> Seq<char>;

/// A `serde_json` object of `timestamp`, `level` and a `message` string,
/// written by its `Display`. Claimed: the text is a function of the three
/// strings.
#[verifier::external_body]
fn json_plain_line(timestamp: &str, level: &str, message: &str) -> (r: String)
    ensures
        r@ == json_plain_text(timestamp@, level@, message@),
{
    let mut obj = serde_json::Map::new();
    obj.insert("timestamp".to_string(), serde_json::Value::String(timestamp.to_string()));
    obj.insert("level".to_string(), serde_json::Value::String(level.to_string()));
    obj.insert("message".to_string(), serde_json::Value::String(message.to_string()));
    serde_json::Value::Object(obj).to_string()
}

/// The JSON text `serde_json` writes for a log line whose message is an
/// object of string fields: an object with `timestamp`, `level` and
/// `message`, the fields inserted in order.
pub uninterp spec fn json_fields_text(
    timestamp: Seq<char>,
    level: Seq<char>,
    fields: Seq<(Seq<char>, Seq<char>)>,
) -> Seq<char>;

/// A `serde_json` object of `timestamp`, `level` and a `message` object
/// holding the fields as strings, inserted in order, written by its
/// `Display`. Claimed: the text is a function of the strings and fields.
#[verifier::external_body]
fn json_fields_line(timestamp: &str, level: &str, fields: &Vec<(String, String)>) -> (r: String)
    ensures
        r@ == json_fields_text(timestamp@, level@, pair_views(fields@)),
{
    let mut content = serde_json::Map::new();
    for (k, v) in fields {
        content.insert(k.clone(), serde_json::Value::String(v.clone()));
    }
    let mut obj = serde_json::Map::new();
    obj.insert("timestamp".to_string(), serde_json::Value::String(timestamp.to_string()));
    obj.insert("level".to_string(), serde_json::Value::String(level.to_string()));
    obj.insert("message".to_string(), serde_json::Value::Object(content));
    serde_json::Value::Object(obj).to_string()
}

/// The name of a level as log lines show it.
pub fn level_name(level: LogLevel) -> (r: String)
    ensures
        r@ == level_text(level),
{
    let mut out: Vec<char> = Vec::new();
    match level {
        LogLevel::Trace => push_str(&mut out, "TRACE"),
        LogLevel::Debug => push_str(&mut out, "DEBUG"),
        LogLevel::Info => push_str(&mut out, "INFO"),
        LogLevel::Warn => push_str(&mut out, "WARN"),
        LogLevel::Error => push_str(&mut out, "ERROR"),
    }
    string_of(out.as_slice())
}

/// The JSON line of a log record at `timestamp`: its level's name, and as
/// its message the record's fields as an object when it has any (as
/// `json_log_fields` gives them), its text otherwise.
pub fn json_log_line(timestamp: &str, level: LogLevel, kvs: &Vec<(String, String)>, message: &str) -> (r:
    String)
    ensures
        r@ == match json_fields_of(pair_views(kvs@), message@) {
            Some(f) => json_fields_text(timestamp@, level_text(level), f),
            None => json_plain_text(timestamp@, level_text(level), message@),
        },
{
    let name = level_name(level);
    match json_log_fields(kvs, message) {
        Some(fields) => json_fields_line(timestamp, name.as_str(), &fields),
        None => json_plain_line(timestamp, name.as_str(), message),
    }
}

} // verus!
