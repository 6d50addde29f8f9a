use flashcron::api::{history_limit, parse_usize, request_authorized};
use flashcron::cmd::logging::{
    json_log_fields, json_log_line, level_for, level_label, level_name, log_settings, text_log_body, LogLevel,
};
use flashcron::cmd::report::{
    execution_status, execution_url, history_status, history_url, list_header, list_row,
    next_run_rfc3339, next_run_text, resolve_config_path, saved_config_path, shown_output,
    time_text, upcoming_runs, validation_report,
};
use flashcron::config::job::Job;
use flashcron::config::settings::parse_tz;
use flashcron::config::settings::{utc_zone, Settings};
use flashcron::config::{JobExecution, JobStatus};
use flashcron::history::{
    execution_from_row, execution_from_stored, stats_increment, stored_duration, stored_id_text, stored_output,
    stored_start_text,
};
use flashcron::text::take_chars;
use flashcron::Config;

fn pairs(kvs: &[(&str, &str)]) -> Vec<(String, String)> {
    kvs.iter().map(|(k, v)| (k.to_string(), v.to_string())).collect()
}

#[test]
fn log_levels_ignore_case() {
    assert_eq!(level_for("TRACE"), LogLevel::Trace);
    assert_eq!(level_for("Debug"), LogLevel::Debug);
    assert_eq!(level_for("warn"), LogLevel::Warn);
    assert_eq!(level_for("ERROR"), LogLevel::Error);
    assert_eq!(level_for("verbose"), LogLevel::Info);
    assert_eq!(level_for(""), LogLevel::Info);
}

#[test]
fn command_line_level_wins() {
    let mut s = Settings::default();
    s.log_level = "error".to_string();
    assert_eq!(log_settings(Some("debug"), false, &s), (LogLevel::Debug, false));
    assert_eq!(log_settings(None, false, &s), (LogLevel::Error, false));
    s.json_logs = true;
    assert_eq!(log_settings(None, false, &s).1, true);
    s.json_logs = false;
    assert_eq!(log_settings(None, true, &s).1, true);
}

#[test]
fn level_labels_are_padded() {
    assert_eq!(level_label(LogLevel::Info), "INFO ");
    assert_eq!(level_label(LogLevel::Warn), "WARN ");
    assert_eq!(level_label(LogLevel::Error), "ERROR");
}

#[test]
fn text_lines_show_jobs_first() {
    assert_eq!(text_log_body(&pairs(&[]), "hello"), "hello");
    assert_eq!(
        text_log_body(&pairs(&[("job_name", "backup"), ("status", "starting"), ("trigger", "cron")]), ""),
        "job=backup status: starting trigger=cron"
    );
    assert_eq!(
        text_log_body(&pairs(&[("job_name", "backup"), ("output", "line 1"), ("status", "output")]), ""),
        "job=backup output: line 1"
    );
    assert_eq!(text_log_body(&pairs(&[("job", "b")]), "Executing"), "Executing job=b");
    assert_eq!(text_log_body(&pairs(&[("job", "b")]), ""), "job=b");
    assert_eq!(text_log_body(&pairs(&[("a", "1"), ("b", "2")]), ""), "a=1 b=2");
    assert_eq!(text_log_body(&pairs(&[("a", "1")]), "msg"), "msg a=1");
}

#[test]
fn json_lines_rename_the_job() {
    assert_eq!(json_log_fields(&pairs(&[]), "plain"), None);
    assert_eq!(
        json_log_fields(&pairs(&[("job_name", "x"), ("status", "ok")]), "done"),
        Some(pairs(&[("job", "x"), ("status", "ok"), ("message", "done")]))
    );
    assert_eq!(json_log_fields(&pairs(&[("k", "v")]), ""), Some(pairs(&[("k", "v")])));
}

#[test]
fn config_path_priority() {
    assert_eq!(resolve_config_path(Some("a.toml".to_string()), Some("b.toml".to_string())), "a.toml");
    assert_eq!(resolve_config_path(None, Some("b.toml".to_string())), "b.toml");
    assert_eq!(resolve_config_path(None, None), "flashcron.toml");
    assert_eq!(saved_config_path("  /etc/flashcron.toml\n"), "/etc/flashcron.toml");
    assert_eq!(saved_config_path(" \t\n"), "");
}

#[test]
fn validation_report_lines() {
    let text = r#"
        [settings]
        job_history_size = 20
        max_history_size = 10
        [jobs.a]
        schedule = "0 2 * * *"
        command = "echo a"
        [jobs.b]
        schedule = "* * * * *"
        command = "echo b"
        enabled = false
    "#;
    let c = Config::from_str(text, "t.toml").unwrap();
    let lines = validation_report(&c);
    assert_eq!(
        lines,
        vec![
            "! Warning: job_history_size (20) is greater than max_history_size (10)".to_string(),
            "  Individual job history will be limited by the global maximum.".to_string(),
            "  Jobs: 2 total, 1 enabled".to_string(),
            "  - a [enabled]: 0 2 * * *".to_string(),
            "  - b [disabled]: * * * * *".to_string(),
        ]
    );
}

#[test]
fn list_table_is_aligned() {
    assert_eq!(
        list_header("UTC"),
        format!("{:<20} {:<20} {:<10} NEXT RUN ({})", "NAME", "SCHEDULE", "STATUS", "UTC")
    );
    assert_eq!(
        list_row("backup", "0 2 * * *", true, "2024-01-01 02:00:00"),
        format!("{:<20} {:<20} {:<10} {}", "backup", "0 2 * * *", "enabled", "2024-01-01 02:00:00")
    );
    let long = "a-very-long-job-name-indeed";
    assert_eq!(list_row(long, "* * * * *", false, "-"), format!("{:<20} {:<20} {:<10} {}", long, "* * * * *", "disabled", "-"));
}

#[test]
fn schedule_merges_upcoming_runs() {
    let text = r#"
        [settings]
        timezone = "UTC"
        [jobs.hourly]
        schedule = "0 * * * *"
        command = "echo h"
        [jobs.half]
        schedule = "*/30 * * * *"
        command = "echo m"
        [jobs.off]
        schedule = "* * * * *"
        command = "echo o"
        enabled = false
    "#;
    let c = Config::from_str(text, "t.toml").unwrap();
    let start = 1_704_067_200_000i64; // 2024-01-01T00:00:00Z
    let runs = upcoming_runs(&c, &utc_zone(), start, 4);
    let h = 3_600_000i64;
    assert_eq!(
        runs,
        vec![
            ("half".to_string(), start + h / 2),
            // The jobs table is read in order of names: "half" before "hourly".
            ("half".to_string(), start + h),
            ("hourly".to_string(), start + h),
            ("half".to_string(), start + 3 * h / 2),
        ]
    );
    assert!(upcoming_runs(&c, &utc_zone(), start, 0).is_empty());
}

#[test]
fn history_texts() {
    assert_eq!(history_status(&JobStatus::Success), "Success");
    assert_eq!(history_status(&JobStatus::Failed { error: "e".to_string() }), "Failed");
    assert_eq!(history_status(&JobStatus::Running), "Unknown");
    assert_eq!(execution_status(&JobStatus::Failed { error: "boom".to_string() }), "Failed: boom");
    assert_eq!(execution_status(&JobStatus::Timeout), "Timeout");
    assert_eq!(history_url("http://h", 20, None), "http://h/api/history?limit=20");
    assert_eq!(history_url("http://h", 5, Some("x")), "http://h/api/history?limit=5&job_name=x");
    assert_eq!(execution_url("http://h", "abc"), "http://h/api/history/abc");
    assert_eq!(shown_output(Some("  out \n")), Some("out".to_string()));
    assert_eq!(shown_output(Some(" \n")), None);
    assert_eq!(shown_output(None), None);
    assert_eq!(take_chars("abcdef", 3), "abc");
    assert_eq!(take_chars("ab", 3), "ab");
}

#[test]
fn api_token_guards_writes_only() {
    assert!(request_authorized(None, "POST", None));
    assert!(request_authorized(Some("SECRET-REDACTED"), "GET", None));
    assert!(request_authorized(Some("SECRET-REDACTED"), "HEAD", None));
    assert!(!request_authorized(Some("SECRET-REDACTED"), "POST", None));
    assert!(!request_authorized(Some("SECRET-REDACTED"), "POST", Some("wrong")));
    assert!(request_authorized(Some("SECRET-REDACTED"), "POST", Some("SECRET-REDACTED")));
}

#[test]
fn history_limits_read_as_numbers() {
    assert_eq!(parse_usize("42"), Some(42));
    assert_eq!(parse_usize("+7"), Some(7));
    assert_eq!(parse_usize("007"), Some(7));
    assert_eq!(parse_usize(""), None);
    assert_eq!(parse_usize("+"), None);
    assert_eq!(parse_usize("-1"), None);
    assert_eq!(parse_usize("1x"), None);
    assert_eq!(parse_usize(" 1"), None);
    assert_eq!(parse_usize("99999999999999999999999"), None);
    assert_eq!(parse_usize(&usize::MAX.to_string()), Some(usize::MAX));
    assert_eq!(history_limit(Some("10")), 10);
    assert_eq!(history_limit(Some("ten")), 50);
    assert_eq!(history_limit(None), 50);
}

#[test]
fn stored_history_rows() {
    let id = uuid::Uuid::new_v4();
    let mut e = JobExecution::new_at("job-1".to_string(), "manual".to_string(), id, 1_000);
    assert_eq!(stored_duration(&e), 0);
    e.complete_success_at(1_250, 0, "stdout content".to_string(), "stderr content".to_string());
    assert_eq!(stored_output(&e), "stdout contentstderr content");
    assert_eq!(stored_duration(&e), 250);
    assert_eq!(stats_increment(&e.status), (1, 0));
    assert_eq!(stats_increment(&JobStatus::Timeout), (0, 1));

    let r = execution_from_row(id, "job-1".to_string(), "manual".to_string(), Some(5_000), 9, 300, Some(0), None);
    assert_eq!(r.started_at, 5_000);
    assert_eq!(r.ended_at, Some(5_300));
    assert!(matches!(r.status, JobStatus::Success));
    let f = execution_from_row(id, "job-1".to_string(), "cron".to_string(), None, 9, 1, Some(2), Some("out".to_string()));
    assert_eq!(f.started_at, 9);
    assert!(matches!(f.status, JobStatus::Failed { ref error } if error == "Completed"));
    assert_eq!(f.stdout.as_deref(), Some("out"));
}

#[test]
fn times_are_shown_in_the_zone() {
    let start = 1_704_067_200_000i64; // 2024-01-01T00:00:00Z
    assert_eq!(time_text(&utc_zone(), start), "2024-01-01 00:00:00");
    let shanghai = parse_tz("Asia/Shanghai").unwrap();
    assert_eq!(time_text(&shanghai, start), "2024-01-01 08:00:00");
    assert_eq!(time_text(&utc_zone(), i64::MAX), "-");
    let job = Job { schedule: "0 9 * * *".to_string(), command: "x".to_string(), ..Default::default() };
    assert_eq!(next_run_text(&job, &shanghai, start), "2024-01-01 09:00:00");
    assert_eq!(next_run_rfc3339(&job, &shanghai, start).as_deref(), Some("2024-01-01T09:00:00+08:00"));
    let bad = Job { schedule: "nope".to_string(), command: "x".to_string(), ..Default::default() };
    assert_eq!(next_run_text(&bad, &utc_zone(), start), "-");
    assert_eq!(next_run_rfc3339(&bad, &utc_zone(), start), None);
}

#[test]
fn stored_rows_read_back_their_id_and_start() {
    let id = uuid::Uuid::from_u128(0x0123_4567_89ab_cdef_0123_4567_89ab_cdef);
    let id_text = stored_id_text(&id);
    assert_eq!(id_text, "01234567-89ab-cdef-0123-456789abcdef");
    // 2024-01-01T00:00:00Z
    let start = 1_704_067_200_000i64;
    let start_text = stored_start_text(start).unwrap();
    assert_eq!(start_text, "2024-01-01T00:00:00+00:00");
    let e = execution_from_stored(
        &id_text,
        "job".to_string(),
        "cron".to_string(),
        &start_text,
        99,
        1_500,
        Some(0),
        None,
    )
    .unwrap();
    assert_eq!(e.id, id);
    assert_eq!(e.started_at, start);
    assert_eq!(e.ended_at, Some(start + 1_500));
    assert!(matches!(e.status, JobStatus::Success));
}

#[test]
fn unreadable_stored_texts_fall_back() {
    let e = execution_from_stored("not an id", "j".to_string(), "manual".to_string(), "yesterday", 5_000, 10, Some(2), None)
        .unwrap();
    assert_eq!(e.id, uuid::Uuid::nil());
    assert_eq!(e.started_at, 5_000);
    assert!(matches!(e.status, JobStatus::Failed { .. }));
    assert!(execution_from_stored("x", "j".to_string(), "cron".to_string(), "nope", i64::MAX, 1, None, None).is_none());
}

#[test]
fn json_log_lines() {
    assert_eq!(level_name(LogLevel::Warn), "WARN");
    assert_eq!(
        json_log_line("2024-01-01 00:00:00.000", LogLevel::Info, &pairs(&[]), "plain"),
        r#"{"level":"INFO","message":"plain","timestamp":"2024-01-01 00:00:00.000"}"#
    );
    assert_eq!(
        json_log_line("t", LogLevel::Error, &pairs(&[("job_name", "x")]), "done"),
        r#"{"level":"ERROR","message":{"job":"x","message":"done"},"timestamp":"t"}"#
    );
}
