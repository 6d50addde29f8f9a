use flashcron::config::job::Job;
use flashcron::JobExecutor;

#[test]
fn capture_stops_at_the_limit() {
    let mut kept: Vec<u8> = Vec::new();
    JobExecutor::capture_chunk(&mut kept, b"hello ", 8);
    assert_eq!(kept, b"hello ".to_vec());
    JobExecutor::capture_chunk(&mut kept, b"world", 8);
    assert_eq!(kept, b"hello wo".to_vec());
    JobExecutor::capture_chunk(&mut kept, b"more", 8);
    assert_eq!(kept.len(), 8);
    let mut none: Vec<u8> = Vec::new();
    JobExecutor::capture_chunk(&mut none, b"abc", 0);
    assert!(none.is_empty());
}

#[test]
fn command_line_uses_the_job_shell() {
    let executor = JobExecutor::default();
    let job = Job { command: "echo hi".to_string(), ..Default::default() };
    let (shell, args) = executor.command_line(&job);
    assert_eq!(shell, "/bin/sh");
    assert_eq!(args, vec!["-c".to_string(), "echo hi".to_string()]);

    let job = Job { command: "ls".to_string(), shell: Some("/bin/bash".to_string()), ..Default::default() };
    assert_eq!(executor.get_shell(&job), ("/bin/bash".to_string(), vec!["-c".to_string()]));

    let mut custom = JobExecutor::new("/bin/zsh".to_string(), vec!["-e".to_string(), "-c".to_string()]);
    let job = Job { command: "true".to_string(), ..Default::default() };
    assert_eq!(custom.command_line(&job).1, vec!["-e".to_string(), "-c".to_string(), "true".to_string()]);
    custom.update_shell("/bin/dash".to_string(), vec!["-c".to_string()]);
    assert_eq!(custom.command_line(&job).0, "/bin/dash");
}

#[test]
fn exit_codes() {
    assert_eq!(JobExecutor::exit_code(Some(3)), 3);
    assert_eq!(JobExecutor::exit_code(None), -1);
}

#[test]
fn captured_output_becomes_text() {
    let mut kept: Vec<u8> = Vec::new();
    JobExecutor::capture_chunk(&mut kept, b"hello world", 5);
    assert_eq!(JobExecutor::output_text(&kept), "hello");
    assert_eq!(JobExecutor::output_text(&[0x66, 0xff, 0x6f]), "f\u{fffd}o");
}
