use flashcron::config::job::Job;
use flashcron::config::{JobExecution, JobStatus};
use flashcron::error::Error;
use flashcron::scheduler::engine::{outcome_of, MessageOutcome, RunEnd, RunOutcome, Scheduler};
use flashcron::scheduler::state::{ScheduledJob, SchedulerState};
use flashcron::scheduler::{JobTrigger, SchedulerEvent, SchedulerMessage};
use flashcron::Config;

const JAN_1_2024: i64 = 1_704_067_200_000;

fn test_config() -> Config {
    let toml = r#"
        [settings]
        max_concurrent_jobs = 2
        timezone = "UTC"

        [jobs.test]
        schedule = "* * * * *"
        command = "echo test"
    "#;
    Config::from_str(toml, "test.toml").unwrap()
}

fn scheduler_with(toml: &str) -> Scheduler {
    let config = Config::from_str(toml, "test.toml").unwrap();
    Scheduler::new(config, "test.toml".to_string(), None, None)
}

#[test]
fn test_scheduled_job() {
    let mut job = ScheduledJob::new("test".to_string(), "* * * * *".to_string(), true);

    assert!(!job.is_running);
    assert_eq!(job.run_count, 0);

    let exec_id = uuid::Uuid::new_v4();
    job.mark_started(exec_id);
    assert!(job.is_running);
    assert_eq!(job.current_execution_id, Some(exec_id));

    job.mark_completed(JobStatus::Success, None);
    assert!(!job.is_running);
    assert_eq!(job.run_count, 1);
    assert_eq!(job.failure_count, 0);
}

#[test]
fn test_scheduler_state() {
    let mut state = SchedulerState::new();

    let job = ScheduledJob::new("test".to_string(), "* * * * *".to_string(), true);
    state.add_job(job);

    assert_eq!(state.total_jobs, 1);
    assert_eq!(state.enabled_jobs, 1);
    assert!(state.get_job("test").is_some());
}

#[test]
fn engine_test_scheduler_creation() {
    let config = test_config();
    let mut scheduler = Scheduler::new(config, "test.toml".to_string(), None, None);
    scheduler.initialize(JAN_1_2024);
    let outcome = scheduler.handle_message(
        SchedulerMessage::TriggerJob { job_name: "test".to_string() },
        JAN_1_2024,
    );
    assert!(matches!(outcome, MessageOutcome::Triggered(Ok(_))));
}

#[test]
fn test_scheduler_status() {
    let config = test_config();
    let mut scheduler = Scheduler::new(config, "test.toml".to_string(), None, None);
    scheduler.initialize(JAN_1_2024);
    let state = scheduler.get_state();
    assert_eq!(state.total_jobs, 1);
    assert_eq!(state.enabled_jobs, 1);
}

#[test]
fn initialize_queues_the_next_minute() {
    let mut s = scheduler_with(
        r#"
        [settings]
        timezone = "UTC"
        [jobs.every]
        schedule = "* * * * *"
        command = "echo e"
        [jobs.off]
        schedule = "* * * * *"
        command = "echo o"
        enabled = false
    "#,
    );
    s.initialize(JAN_1_2024 + 30_000);
    assert_eq!(s.trigger_queue.len(), 1);
    assert_eq!(s.trigger_queue[0].job_name, "every");
    assert_eq!(s.trigger_queue[0].scheduled_at, JAN_1_2024 + 60_000);
    assert_eq!(s.state.get_job("every").unwrap().next_run, Some(JAN_1_2024 + 60_000));
    assert_eq!(s.state.get_job("off").unwrap().next_run, None);
    assert_eq!(s.state.total_jobs, 2);
    assert_eq!(s.state.enabled_jobs, 1);
    assert_eq!(s.sleep_ms(JAN_1_2024 + 30_000), 30_000);
    assert_eq!(s.sleep_ms(JAN_1_2024 + 90_000), 0);
}

#[test]
fn empty_queue_sleeps_a_minute() {
    let s = scheduler_with("");
    assert_eq!(s.sleep_ms(0), 60_000);
    assert_eq!(Scheduler::permit_count(0), usize::MAX);
    assert_eq!(Scheduler::permit_count(3), 3);
}

#[test]
fn queue_is_kept_in_time_order() {
    let mut s = scheduler_with(
        r#"
        [settings]
        timezone = "UTC"
        [jobs.hourly]
        schedule = "0 * * * *"
        command = "echo h"
        [jobs.minutely]
        schedule = "* * * * *"
        command = "echo m"
        [jobs.daily]
        schedule = "0 0 * * *"
        command = "echo d"
    "#,
    );
    s.initialize(JAN_1_2024 + 1_000);
    let names: Vec<&str> = s.trigger_queue.iter().map(|t| t.job_name.as_str()).collect();
    assert_eq!(names, vec!["minutely", "hourly", "daily"]);
    let times: Vec<i64> = s.trigger_queue.iter().map(|t| t.scheduled_at).collect();
    assert_eq!(times, vec![JAN_1_2024 + 60_000, JAN_1_2024 + 3_600_000, JAN_1_2024 + 86_400_000]);
}

#[test]
fn due_triggers_run_and_come_back_later() {
    let mut s = scheduler_with(
        r#"
        [settings]
        timezone = "UTC"
        max_concurrent_jobs = 1
        [jobs.every]
        schedule = "* * * * *"
        command = "echo e"
    "#,
    );
    s.initialize(JAN_1_2024);
    let first = s.trigger_queue[0].scheduled_at;
    assert!(s.pop_due(first - 1).is_none());
    s.process_due_triggers(first);
    // The trigger fired and came back one minute later.
    assert_eq!(s.trigger_queue.len(), 1);
    assert_eq!(s.trigger_queue[0].scheduled_at, first + 60_000);
    assert_eq!(s.waiting.len(), 1);
    assert_eq!(s.waiting[0].execution.trigger, "cron");
    assert_eq!(s.state.get_job("every").unwrap().next_run, Some(first + 60_000));

    // One permit: the run starts, a second one waits.
    let run = s.start_next_run(first).unwrap();
    assert_eq!(s.in_flight, 1);
    assert!(s.state.get_job("every").unwrap().is_running);
    assert_eq!(s.state.running_jobs, 1);
    let id = s.trigger_job("every", first).unwrap();
    assert!(s.start_next_run(first).is_none());

    // While the job runs, a due trigger requests no run.
    let before = s.waiting.len();
    s.process_due_triggers(first + 60_000);
    assert_eq!(s.waiting.len(), before);

    let event = s.finish_run(
        run,
        RunOutcome::Exited { exit_code: 0, stdout: "ok".to_string(), stderr: String::new() },
        first + 1_500,
        1_500,
    );
    match event {
        RunEnd::Completed(SchedulerEvent::JobCompleted { job_name, success, duration_ms, .. }) => {
            assert_eq!(job_name, "every");
            assert!(success);
            assert_eq!(duration_ms, 1_500);
        }
        _ => panic!("unexpected end of run"),
    }
    assert_eq!(s.in_flight, 0);
    let job = s.state.get_job("every").unwrap();
    assert!(!job.is_running);
    assert_eq!(job.run_count, 1);
    assert_eq!(s.state.total_executions, 1);
    assert_eq!(s.state.recent_history.len(), 1);
    assert_eq!(s.state.recent_history[0].stdout.as_deref(), Some("ok"));

    // The manual run now gets the permit.
    let manual = s.start_next_run(first + 2_000).unwrap();
    assert_eq!(manual.execution.id, id);
    assert_eq!(manual.execution.trigger, "manual");
}

#[test]
fn failed_runs_are_counted() {
    let mut s = scheduler_with(
        r#"
        [settings]
        timezone = "UTC"
        [jobs.bad]
        schedule = "0 0 * * *"
        command = "exit 3"
    "#,
    );
    s.initialize(JAN_1_2024);
    s.trigger_job("bad", JAN_1_2024).unwrap();
    let run = s.start_next_run(JAN_1_2024).unwrap();
    let event = s.finish_run(
        run,
        RunOutcome::Exited { exit_code: 3, stdout: String::new(), stderr: "no".to_string() },
        JAN_1_2024 + 10,
        10,
    );
    assert!(matches!(event, RunEnd::Completed(SchedulerEvent::JobCompleted { success: false, .. })));
    let job = s.state.get_job("bad").unwrap();
    assert_eq!(job.failure_count, 1);
    assert_eq!(job.next_run, Some(JAN_1_2024 + 86_400_000));
    match &job.last_status {
        Some(JobStatus::Failed { error }) => assert_eq!(error, "Exit code: 3"),
        other => panic!("unexpected status {:?}", other),
    }
    assert_eq!(s.state.total_failures, 1);
    assert_eq!(s.state.successful_executions(), 0);

    s.trigger_job("bad", JAN_1_2024 + 20).unwrap();
    let run = s.start_next_run(JAN_1_2024 + 20).unwrap();
    s.finish_run(run, RunOutcome::TimedOut, JAN_1_2024 + 30, 10);
    assert!(matches!(s.state.get_job("bad").unwrap().last_status, Some(JobStatus::Timeout)));

    s.trigger_job("bad", JAN_1_2024 + 40).unwrap();
    let run = s.start_next_run(JAN_1_2024 + 40).unwrap();
    s.finish_run(run, RunOutcome::Failed { error: "spawn failed".to_string() }, JAN_1_2024 + 50, 10);
    assert_eq!(s.state.total_failures, 3);
    assert_eq!(s.state.recent_history[0].stdout.as_deref(), Some(""));
}

#[test]
fn unknown_job_is_not_found() {
    let mut s = scheduler_with("");
    match s.trigger_job("ghost", 0) {
        Err(Error::JobNotFound { job_name }) => assert_eq!(job_name, "ghost"),
        other => panic!("unexpected {:?}", other),
    }
    assert_eq!(s.waiting.len(), 0);
}

#[test]
fn startup_jobs_run_once_at_start() {
    let mut s = scheduler_with(
        r#"
        [jobs.boot]
        schedule = "0 0 * * *"
        command = "echo boot"
        run_on_startup = true
        [jobs.off]
        schedule = "0 0 * * *"
        command = "echo off"
        run_on_startup = true
        enabled = false
        [jobs.plain]
        schedule = "0 0 * * *"
        command = "echo plain"
    "#,
    );
    let ids = s.run_startup_jobs(5);
    assert_eq!(ids.len(), 1);
    assert_eq!(s.waiting.len(), 1);
    assert_eq!(s.waiting[0].execution.job_name, "boot");
    assert_eq!(s.waiting[0].execution.trigger, "startup");
    assert_eq!(s.waiting[0].execution.id, ids[0]);
}

#[test]
fn reload_keeps_counters_and_token() {
    let mut s = scheduler_with(
        r#"
        [settings]
        timezone = "UTC"
        api_token = "SECRET-REDACTED"
        [jobs.keep]
        schedule = "0 * * * *"
        command = "echo k"
        [jobs.drop]
        schedule = "0 * * * *"
        command = "echo d"
    "#,
    );
    s.initialize(JAN_1_2024);
    s.trigger_job("keep", JAN_1_2024).unwrap();
    let run = s.start_next_run(JAN_1_2024).unwrap();
    s.finish_run(
        run,
        RunOutcome::Exited { exit_code: 0, stdout: String::new(), stderr: String::new() },
        JAN_1_2024 + 5,
        5,
    );
    let new_config = Config::from_str(
        r#"
        [settings]
        timezone = "UTC"
        shell = "/bin/bash"
        [jobs.keep]
        schedule = "*/5 * * * *"
        command = "echo k2"
        [jobs.new]
        schedule = "* * * * *"
        command = "echo n"
        enabled = false
    "#,
        "test.toml",
    )
    .unwrap();
    let enabled = s.reload_config(new_config, JAN_1_2024 + 10);
    assert_eq!(enabled, 1);
    assert_eq!(s.state.total_jobs, 2);
    assert!(s.state.get_job("drop").is_none());
    let keep = s.state.get_job("keep").unwrap();
    assert_eq!(keep.run_count, 1);
    assert_eq!(keep.schedule, "*/5 * * * *");
    assert_eq!(keep.next_run, Some(JAN_1_2024 + 300_000));
    assert_eq!(s.config.settings.api_token.as_deref(), Some("SECRET-REDACTED"));
    assert_eq!(s.executor.shell, "/bin/bash");
    assert_eq!(s.trigger_queue.len(), 1);
    assert_eq!(s.trigger_queue[0].job_name, "keep");
}

#[test]
fn messages_are_answered() {
    let mut s = scheduler_with("");
    assert!(matches!(s.handle_message(SchedulerMessage::ReloadConfig, 0), MessageOutcome::ReloadRequested));
    assert!(matches!(s.handle_message(SchedulerMessage::GetStatus, 0), MessageOutcome::StatusRequested));
    match s.handle_message(SchedulerMessage::StopJob { job_name: "x".to_string() }, 0) {
        MessageOutcome::StopRequested { job_name, execution_id } => {
            assert_eq!(job_name, "x");
            assert_eq!(execution_id, None);
        }
        _ => panic!("a stop request is answered"),
    }
    assert!(!s.shutdown);
    assert!(matches!(s.handle_message(SchedulerMessage::Shutdown, 0), MessageOutcome::ShutdownRequested));
    assert!(s.shutdown);
    assert!(s.all_jobs_finished());
}

#[test]
fn triggers_report_when_they_are_due() {
    let t = JobTrigger::new("j".to_string(), 1_000, Job::default());
    assert!(t.is_due_at(1_000));
    assert!(!t.is_due_at(999));
    assert_eq!(t.ms_until_due_at(400), 600);
    assert_eq!(t.ms_until_due_at(5_000), 0);
    assert_eq!(JobTrigger::new("j".to_string(), i64::MAX, Job::default()).ms_until_due_at(i64::MIN), i64::MAX);
}

#[test]
fn history_keeps_recent_entries_per_job() {
    let mut state = SchedulerState::new_at(0);
    state.add_job(ScheduledJob::new("a".to_string(), "* * * * *".to_string(), true));
    state.add_job(ScheduledJob::new("b".to_string(), "* * * * *".to_string(), false));
    for k in 0..5 {
        let e = JobExecution::new_at("a".to_string(), "cron".to_string(), uuid::Uuid::new_v4(), k);
        state.record_job_completion("a", JobStatus::Success, e, None, 2, 3);
    }
    let e = JobExecution::new_at("b".to_string(), "cron".to_string(), uuid::Uuid::new_v4(), 9);
    state.record_job_completion("b", JobStatus::Timeout, e, None, 2, 3);
    let starts: Vec<i64> = state.recent_history.iter().map(|e| e.started_at).collect();
    assert_eq!(starts, vec![9, 4, 3]);
    assert_eq!(state.total_executions, 6);
    assert_eq!(state.total_failures, 1);
    assert_eq!(state.get_job("a").unwrap().run_count, 5);
    // A job of an unknown name only enters the history.
    let e = JobExecution::new_at("zzz".to_string(), "cron".to_string(), uuid::Uuid::new_v4(), 10);
    state.record_job_completion("zzz", JobStatus::Success, e, None, 2, 3);
    assert_eq!(state.total_executions, 6);
    assert_eq!(state.recent_history[0].job_name, "zzz");
}

#[test]
fn due_jobs_and_uptime() {
    let mut state = SchedulerState::new_at(1_000);
    state.add_job(ScheduledJob::new("a".to_string(), "* * * * *".to_string(), true).with_next_run(Some(5_000)));
    state.add_job(ScheduledJob::new("b".to_string(), "* * * * *".to_string(), true).with_next_run(Some(9_000)));
    state.add_job(ScheduledJob::new("c".to_string(), "* * * * *".to_string(), false).with_next_run(Some(1)));
    let due: Vec<&str> = state.due_jobs_at(6_000).iter().map(|j| j.name.as_str()).collect();
    assert_eq!(due, vec!["a"]);
    state.update_time_at(4_500);
    assert_eq!(state.uptime_seconds, 3);
    assert_eq!(state.current_time, 4_500);
    state.update_time_at(-1_500);
    assert_eq!(state.uptime_seconds, -2);
}

#[test]
fn failed_runs_are_retried_then_recorded_once() {
    let mut s = scheduler_with(
        r#"
        [settings]
        timezone = "UTC"
        [jobs.flaky]
        schedule = "0 0 * * *"
        command = "exit 1"
        retry_count = 2
        retry_delay = 5
    "#,
    );
    s.initialize(JAN_1_2024);
    let id = s.trigger_job("flaky", JAN_1_2024).unwrap();
    let mut now = JAN_1_2024;
    for attempt in 1..=2u32 {
        let run = s.start_next_run(now).unwrap();
        assert_eq!(run.execution.attempt, attempt);
        assert_eq!(run.execution.id, id);
        match s.finish_run(run, RunOutcome::TimedOut, now + 1, 1) {
            RunEnd::Retry { run, delay_ms } => {
                assert_eq!(delay_ms, 5_000);
                assert_eq!(run.execution.attempt, attempt + 1);
                let job = s.state.get_job("flaky").unwrap();
                assert!(!job.is_running);
                assert!(matches!(job.last_status, Some(JobStatus::Retrying { attempt: a }) if a == attempt + 1));
                assert_eq!(job.run_count, 0);
                assert_eq!(s.state.running_jobs, 0);
                s.requeue_retry(run);
            }
            RunEnd::Completed(_) => panic!("attempts are left"),
        }
        now += 5_000;
    }
    let run = s.start_next_run(now).unwrap();
    assert_eq!(run.execution.attempt, 3);
    let end = s.finish_run(
        run,
        RunOutcome::Exited { exit_code: 1, stdout: String::new(), stderr: String::new() },
        now + 1,
        1,
    );
    assert!(matches!(end, RunEnd::Completed(SchedulerEvent::JobCompleted { success: false, .. })));
    let job = s.state.get_job("flaky").unwrap();
    assert_eq!(job.run_count, 1);
    assert_eq!(job.failure_count, 1);
    assert_eq!(s.state.recent_history.len(), 1);
    assert_eq!(s.state.recent_history[0].id, id);
    assert_eq!(s.state.recent_history[0].attempt, 3);
}

#[test]
fn stopping_a_running_job() {
    let mut s = scheduler_with(
        r#"
        [jobs.long]
        schedule = "0 0 * * *"
        command = "sleep 100"
        retry_count = 3
    "#,
    );
    s.initialize(JAN_1_2024);
    let id = s.trigger_job("long", JAN_1_2024).unwrap();
    let run = s.start_next_run(JAN_1_2024).unwrap();
    match s.handle_message(SchedulerMessage::StopJob { job_name: "long".to_string() }, JAN_1_2024 + 1) {
        MessageOutcome::StopRequested { execution_id, .. } => assert_eq!(execution_id, Some(id)),
        _ => panic!("a stop request is answered"),
    }
    let job = s.state.get_job("long").unwrap();
    assert!(!job.is_running);
    assert_eq!(job.current_execution_id, None);
    // The stopped run ends as cancelled and is not tried again.
    match s.finish_run(run, RunOutcome::Cancelled, JAN_1_2024 + 2, 2) {
        RunEnd::Completed(SchedulerEvent::JobCompleted { success, .. }) => assert!(!success),
        _ => panic!("a stopped run is not retried"),
    }
    assert!(matches!(s.state.recent_history[0].status, JobStatus::Cancelled));
    assert_eq!(s.state.total_failures, 0);
    assert_eq!(s.state.running_jobs, 0);
}

#[test]
fn outcomes_of_commands() {
    assert!(matches!(
        outcome_of(Ok((0, "a".to_string(), "b".to_string()))),
        RunOutcome::Exited { exit_code: 0, .. }
    ));
    assert!(matches!(outcome_of(Err(Error::job_timeout("j".to_string(), 5))), RunOutcome::TimedOut));
    match outcome_of(Err(Error::JobSpawn { job_name: "j".to_string(), reason: "no such file".to_string() })) {
        RunOutcome::Failed { error } => assert_eq!(error, "Failed to spawn job 'j': no such file"),
        _ => panic!("a spawn error is a failure"),
    }
}

#[test]
fn writing_through_get_job_mut_changes_that_job() {
    let mut state = SchedulerState::new();
    state.add_job(ScheduledJob::new("a".to_string(), "* * * * *".to_string(), true));
    state.add_job(ScheduledJob::new("b".to_string(), "* * * * *".to_string(), true));
    state.get_job_mut("b").unwrap().run_count = 5;
    assert!(state.get_job_mut("missing").is_none());
    assert_eq!(state.get_job("b").unwrap().run_count, 5);
    assert_eq!(state.get_job("a").unwrap().run_count, 0);
    assert_eq!(state.total_jobs, 2);
}
