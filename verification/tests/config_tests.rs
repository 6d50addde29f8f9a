use flashcron::config::settings::{
    parse_tz, Settings, DEFAULT_LOG_LEVEL, DEFAULT_MAX_CONCURRENT_JOBS, DEFAULT_PRINT_OUTPUT,
    DEFAULT_WATCH_CONFIG,
};
use flashcron::config::settings;
use flashcron::error::Error;
use flashcron::Config;

#[test]
fn test_parse_minimal_config() {
    let config = r#"
        [jobs.test]
        schedule = "* * * * *"
        command = "echo test"
    "#;

    let cfg = Config::from_str(config, "test.toml").unwrap();
    assert!(cfg.get_job("test").is_some());
}

#[test]
fn test_parse_full_config() {
    let config = r#"
        [settings]
        log_level = "debug"
        max_concurrent_jobs = 5

        [jobs.hello]
        schedule = "*/5 * * * *"
        command = "echo hello"
        description = "Test job"
        enabled = true
        timeout = 60
        retry_count = 3

        [jobs.backup]
        schedule = "0 2 * * *"
        command = "/bin/backup.sh"
        working_dir = "/tmp"
        environment = { FOO = "bar" }
    "#;

    let cfg = Config::from_str(config, "test.toml").unwrap();
    assert_eq!(cfg.settings.log_level, "debug");
    assert_eq!(cfg.settings.max_concurrent_jobs, 5);
    assert_eq!(cfg.jobs.len(), 2);
}

#[test]
fn test_invalid_cron_expression() {
    let config = r#"
        [jobs.bad]
        schedule = "invalid"
        command = "echo test"
    "#;

    let result = Config::from_str(config, "test.toml");
    assert!(result.is_err());
}

#[test]
fn test_default_config_is_valid() {
    let default = Config::default_config();
    let result = Config::from_str(&default, "default.toml");
    if let Err(ref e) = result {
        println!("Config error: {:?}", e);
    }
    assert!(result.is_ok(), "Config failed: {:?}", result.err());
}

#[test]
fn test_default_settings() {
    let settings = Settings::default();
    assert_eq!(settings.log_level, DEFAULT_LOG_LEVEL);
    assert_eq!(settings.max_concurrent_jobs, DEFAULT_MAX_CONCURRENT_JOBS);
    assert_eq!(settings.watch_config, DEFAULT_WATCH_CONFIG);
    assert_eq!(settings.print_output, DEFAULT_PRINT_OUTPUT);
    assert_eq!(settings.api_host, "0.0.0.0");
}

#[test]
fn test_config_parsing() {
    let config_str = r#"
        [settings]
        log_level = "debug"
        max_concurrent_jobs = 5

        [jobs.echo_test]
        schedule = "*/5 * * * *"
        command = "echo hello"
        description = "Test echo job"
        enabled = true

        [jobs.disabled_job]
        schedule = "0 0 * * *"
        command = "echo disabled"
        enabled = false
    "#;

    let config = Config::from_str(config_str, "test.toml").unwrap();

    assert_eq!(config.settings.log_level, "debug");
    assert_eq!(config.settings.max_concurrent_jobs, 5);
    assert_eq!(config.jobs.len(), 2);
    assert_eq!(config.enabled_jobs().len(), 1);
}

#[test]
fn test_invalid_cron_rejected() {
    let config_str = r#"
        [jobs.bad]
        schedule = "invalid cron"
        command = "echo test"
    "#;

    let result = Config::from_str(config_str, "test.toml");
    assert!(result.is_err());
}

#[test]
fn test_default_config_valid() {
    let default = Config::default_config();
    let result = Config::from_str(&default, "default.toml");
    assert!(result.is_ok());
}

#[test]
fn test_next_run_calculation() {
    let config_str = r#"
        [jobs.every_minute]
        schedule = "* * * * *"
        command = "echo test"
    "#;

    let config = Config::from_str(config_str, "test.toml").unwrap();
    let job = config.get_job("every_minute").unwrap();

    let next = job.next_run(&settings::utc_zone());
    assert!(next.is_some());

    // Should be within the next minute
    let now = chrono::Utc::now().timestamp_millis();
    let diff_seconds = (next.unwrap() - now) / 1000;
    assert!(diff_seconds <= 60);
    assert!(diff_seconds >= 0);
}

#[test]
fn test_retry_policy() {
    let config_str = r#"
        [jobs.retry_job]
        schedule = "* * * * *"
        command = "echo test"
        retry_count = 3
        retry_delay = 30
    "#;

    let config = Config::from_str(config_str, "test.toml").unwrap();
    let job = config.get_job("retry_job").unwrap();
    let policy = job.retry_policy();

    assert!(policy.is_enabled());
    assert_eq!(policy.max_attempts, 3);
    assert_eq!(policy.delay_seconds, 30);
}

#[test]
fn test_disabled_jobs_filtered() {
    let config_str = r#"
        [jobs.enabled_job]
        schedule = "* * * * *"
        command = "echo enabled"
        enabled = true

        [jobs.disabled_job]
        schedule = "* * * * *"
        command = "echo disabled"
        enabled = false
    "#;

    let config = Config::from_str(config_str, "test.toml").unwrap();

    let enabled = config.enabled_jobs();
    assert_eq!(enabled.len(), 1);
    assert_eq!(enabled[0].0, "enabled_job");
}

#[test]
fn test_cron_expressions() {
    let expressions = vec![
        "* * * * *",
        "*/5 * * * *",
        "0 * * * *",
        "0 0 * * *",
        "0 0 * * 7",
        "0 0 1 * *",
        "0 0 1 1 *",
        "30 4 1,15 * *",
        "0 0 * * 1-5",
    ];

    for expr in expressions {
        let config_str = format!(
            r#"
            [jobs.test]
            schedule = "{}"
            command = "echo test"
        "#,
            expr
        );

        let result = Config::from_str(&config_str, "test.toml");
        assert!(result.is_ok(), "Expression '{}' should be valid", expr);
    }
}

#[test]
fn parse_errors_name_the_file() {
    let result = Config::from_str("this is [not toml", "broken.toml");
    match result {
        Err(Error::ConfigParse { path, .. }) => assert_eq!(path, "broken.toml"),
        other => panic!("unexpected: {:?}", other),
    }
    // A job that is not a table does not read as a configuration.
    let result = Config::from_str("[jobs]\nx = 3\n", "shape.toml");
    assert!(matches!(result, Err(Error::ConfigParse { .. })));
}

#[test]
fn config_reads_every_field() {
    let text = r#"
        [settings]
        shell = "/bin/bash"
        shell_args = ["-e", "-c"]
        timezone = "Asia/Shanghai"
        api_token = "SECRET-REDACTED"
        job_history_size = 7
        print_output = true

        [jobs.a]
        schedule = "0 3 * * *"
        command = "run a"
        shell = "/bin/zsh"
        tags = ["x", "y"]
        environment = { K = "v", L = "w" }
        run_on_startup = true
        print_output = false
    "#;
    let c = Config::from_str(text, "full.toml").unwrap();
    assert_eq!(c.settings.shell, "/bin/bash");
    assert_eq!(c.settings.shell_args, vec!["-e".to_string(), "-c".to_string()]);
    assert_eq!(c.settings.timezone, "Asia/Shanghai");
    assert_eq!(c.settings.api_token.as_deref(), Some("SECRET-REDACTED"));
    assert_eq!(c.settings.job_history_size, 7);
    assert!(c.settings.print_output);
    let a = c.get_job("a").unwrap();
    assert_eq!(a.shell.as_deref(), Some("/bin/zsh"));
    assert_eq!(a.tags, vec!["x".to_string(), "y".to_string()]);
    assert_eq!(a.environment.len(), 2);
    assert!(a.run_on_startup);
    assert_eq!(a.print_output, Some(false));
    let (shell, args) = c.settings.shell_command();
    assert_eq!(shell, "/bin/bash");
    assert_eq!(args.len(), 2);
}

#[test]
fn effective_timezone_priority() {
    let mut s = Settings::default();
    // "System" defers to the machine's zone.
    assert_eq!(s.effective_timezone_name(None, Some("Europe/Paris")), "Europe/Paris");
    assert_eq!(s.effective_timezone_name(None, None), "UTC");
    // The TZ variable wins when the database knows it.
    s.timezone = "Asia/Tokyo".to_string();
    assert_eq!(s.effective_timezone_name(Some("America/New_York"), Some("Europe/Paris")), "America/New_York");
    assert_eq!(s.effective_timezone_name(Some("Not/AZone"), Some("Europe/Paris")), "Asia/Tokyo");
    s.timezone = "Nowhere".to_string();
    assert_eq!(s.effective_timezone_name(None, Some("Also/Nowhere")), "UTC");
    assert_eq!(s.effective_timezone(None, None).name(), "UTC");
    assert!(parse_tz("Asia/Shanghai").is_some());
    assert!(parse_tz("asia/shanghai").is_none());
}

#[test]
fn default_settings_values() {
    assert_eq!(settings::default_shell(), "/bin/sh");
    assert_eq!(settings::default_shell_args(), vec!["-c".to_string()]);
    assert_eq!(settings::default_job_history_size(), 100);
    assert_eq!(settings::default_max_history_size(), 10000);
    assert_eq!(settings::default_api_port(), 8080);
    assert_eq!(settings::default_timezone(), "System");
    assert_eq!(settings::default_shutdown_timeout(), 30);
    assert_eq!(settings::default_log_level(), "info");
    assert_eq!(settings::default_max_concurrent(), 10);
    assert!(settings::default_watch_config());
    assert!(!settings::default_print_output());
    assert_eq!(settings::default_api_host(), "0.0.0.0");
}

#[test]
fn first_listed_job_wins() {
    let text = r#"
        [jobs.one]
        schedule = "* * * * *"
        command = "echo one"
    "#;
    let c = Config::from_str(text, "t.toml").unwrap();
    assert!(c.get_job("two").is_none());
    assert_eq!(c.get_job("one").unwrap().command, "echo one");
    assert!(c.validate().is_ok());
}

#[test]
fn enabled_jobs_keep_order_and_names() {
    let config_str = r#"
        [jobs.a]
        schedule = "* * * * *"
        command = "echo a"

        [jobs.b]
        schedule = "* * * * *"
        command = "echo b"
        enabled = false

        [jobs.c]
        schedule = "* * * * *"
        command = "echo c"

        [jobs.d]
        schedule = "* * * * *"
        command = "echo d"
        enabled = false
    "#;

    let config = Config::from_str(config_str, "test.toml").unwrap();
    let enabled = config.enabled_jobs();
    let names: Vec<&str> = enabled.iter().map(|p| p.0.as_str()).collect();
    assert_eq!(names.len(), 2);
    assert!(names.contains(&"a"));
    assert!(names.contains(&"c"));
    assert!(enabled.iter().all(|p| p.1.enabled));
}

fn parse_reason(text: &str) -> String {
    match Config::from_str(text, "bad.toml") {
        Err(Error::ConfigParse { path, reason }) => {
            assert_eq!(path, "bad.toml");
            reason
        }
        _ => panic!("expected a parse error"),
    }
}

#[test]
fn decode_errors_name_the_first_bad_field() {
    assert_eq!(
        parse_reason("[jobs.x]\nschedule = 5\ncommand = \"echo\"\n"),
        "invalid type for field `schedule`"
    );
    assert_eq!(parse_reason("[jobs.x]\nschedule = \"* * * * *\"\n"), "missing field `command`");
    assert_eq!(
        parse_reason("[settings]\nmax_concurrent_jobs = -1\n"),
        "invalid value for field `max_concurrent_jobs`"
    );
    assert_eq!(parse_reason("settings = 3\n"), "invalid type for field `settings`");
    assert_eq!(parse_reason("jobs = \"x\"\n"), "invalid type for field `jobs`");
    assert_eq!(parse_reason("[jobs]\nx = 1\n"), "invalid type: a job must be a table");
}
