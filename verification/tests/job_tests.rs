use flashcron::config::job::Job;
use flashcron::config::settings::{parse_tz, utc_zone};
use flashcron::config::{JobExecution, JobStatus};
use flashcron::error::Error;

fn job(schedule: &str, command: &str) -> Job {
    Job {
        schedule: schedule.to_string(),
        command: command.to_string(),
        ..Default::default()
    }
}

#[test]
fn test_job_validation() {
    let job = job("*/5 * * * *", "echo hello");
    assert!(job.validate("test").is_ok());
}

#[test]
fn test_invalid_schedule() {
    let job = job("invalid", "echo hello");
    assert!(job.validate("test").is_err());
}

#[test]
fn test_empty_command() {
    let job = job("* * * * *", "");
    assert!(job.validate("test").is_err());
}

#[test]
fn test_next_run() {
    let job = job("* * * * *", "echo test");
    let next = job.next_run(&utc_zone());
    assert!(next.is_some());
}

#[test]
fn job_test_job_execution() {
    let mut exec = JobExecution::new("test-job".to_string(), "manual".to_string());
    assert!(exec.is_running());

    exec.complete_success(0, "output".to_string(), "".to_string());
    assert!(!exec.is_running());
    assert!(matches!(exec.status, JobStatus::Success));
    assert!(exec.duration().is_some());
}

#[test]
fn invalid_schedule_reports_the_expression() {
    let job = job("invalid", "echo hello");
    match job.validate("test") {
        Err(Error::CronParse { expr, reason }) => {
            assert_eq!(expr, "invalid");
            assert!(!reason.is_empty());
        }
        other => panic!("unexpected result: {:?}", other),
    }
}

#[test]
fn blank_command_is_named_in_the_error() {
    let job = job("* * * * *", "  \t ");
    match job.validate("backup") {
        Err(e) => {
            assert!(matches!(e, Error::Config(_)));
            assert_eq!(e.message(), "Configuration error: Job 'backup' has empty command");
        }
        Ok(()) => panic!("a blank command must be rejected"),
    }
}

#[test]
fn numeric_days_of_week_become_names() {
    assert_eq!(Job::normalize_dow_field("0"), "Sun");
    assert_eq!(Job::normalize_dow_field("7"), "Sun");
    assert_eq!(Job::normalize_dow_field("1-5"), "Mon-Fri");
    assert_eq!(Job::normalize_dow_field("1,3,5"), "Mon,Wed,Fri");
    assert_eq!(Job::normalize_dow_field("*/2"), "*/2");
    assert_eq!(Job::normalize_dow_field("MON"), "MON");
}

#[test]
fn next_run_after_is_the_next_minute() {
    let job = job("* * * * *", "echo test");
    // 2024-01-01T00:00:30Z
    let after = 1_704_067_230_000i64;
    assert_eq!(job.next_run_after(&utc_zone(), after), Some(1_704_067_260_000));
}

#[test]
fn next_run_follows_the_zone() {
    let job = job("0 2 * * *", "echo test");
    let zone = parse_tz("Asia/Shanghai").unwrap();
    // 2024-01-01T00:00:00Z is 08:00 in Shanghai; 02:00 there is 18:00 UTC.
    let after = 1_704_067_200_000i64;
    assert_eq!(job.next_run_after(&zone, after), Some(1_704_132_000_000));
}

#[test]
fn invalid_schedule_has_no_next_run() {
    let job = job("not a schedule", "echo test");
    assert_eq!(job.next_run_after(&utc_zone(), 0), None);
}

#[test]
fn retry_policy_and_timeout_follow_the_job() {
    let mut j = job("* * * * *", "echo");
    assert!(!j.has_timeout());
    assert!(!j.retry_policy().is_enabled());
    j.timeout = 5;
    j.retry_count = 2;
    j.retry_delay = 7;
    assert!(j.has_timeout());
    let p = j.retry_policy();
    assert!(p.is_enabled());
    assert_eq!(p.max_attempts, 2);
    assert_eq!(p.delay_seconds, 7);
}

#[test]
fn job_defaults() {
    let j = Job::default();
    assert_eq!(j.schedule, "* * * * *");
    assert!(j.enabled);
    assert_eq!(j.retry_delay, 60);
    assert!(j.capture_output);
    assert_eq!(j.max_output_size, 1024 * 1024);
    assert!(!j.run_on_startup);
    assert_eq!(flashcron::config::job::default_retry_delay(), 60);
    assert_eq!(flashcron::config::job::default_max_output(), 1_048_576);
    assert!(flashcron::config::job::default_enabled());
    assert!(flashcron::config::job::default_capture_output());
}

#[test]
fn execution_records_complete() {
    let id = uuid::Uuid::new_v4();
    let mut e = JobExecution::new_at("j".to_string(), "cron".to_string(), id, 1_000);
    assert_eq!(e.id, id);
    assert_eq!(e.started_at, 1_000);
    assert_eq!(e.attempt, 1);
    assert_eq!(e.duration(), None);
    e.complete_failed_at(3_500, "boom".to_string(), Some(2), "o".to_string(), "e".to_string());
    assert_eq!(e.duration(), Some(2_500));
    assert_eq!(e.exit_code, Some(2));
    assert!(matches!(e.status, JobStatus::Failed { ref error } if error == "boom"));
    let mut t = JobExecution::new_at("j".to_string(), "cron".to_string(), id, 10);
    t.complete_timeout_at(20);
    assert!(matches!(t.status, JobStatus::Timeout));
    assert_eq!(t.ended_at, Some(20));
}

#[test]
fn status_labels() {
    assert_eq!(JobStatus::Success.label(), "success");
    assert_eq!(JobStatus::Failed { error: "x".to_string() }.label(), "failed: x");
    assert_eq!(JobStatus::Retrying { attempt: 3 }.label(), "retrying (attempt 3)");
    assert!(JobStatus::Timeout.is_failure());
    assert!(!JobStatus::Cancelled.is_failure());
}

#[test]
fn instants_at_the_end_of_time_have_no_next_run() {
    let job = job("* * * * *", "echo test");
    assert_eq!(job.next_run_after(&utc_zone(), i64::MAX), None);
    let last = chrono::DateTime::<chrono::Utc>::MAX_UTC.timestamp_millis();
    assert_eq!(job.next_run_after(&utc_zone(), last), None);
    assert_eq!(job.next_run_after(&utc_zone(), last - 500), None);
}
