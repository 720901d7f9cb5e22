use eshell_core::worker::{flush_step, worker_step, write_step, FlushDecision, FlushOutcome, WorkerAction, WorkerEvent, WorkerState, WriteDecision, WriteOutcome};
use eshell_core::error::AppError;
use eshell_core::session::{trim_to_last_chars, PtyCommand, SessionRegistry, ShellSession, MAX_SESSION_LAST_OUTPUT_CHARS};
use eshell_core::shell::{
    append_session_output, close_shell_session, complete_command, prepare_command, pty_resize, pty_write_input,
};

fn session(id: &str, dir: &str) -> ShellSession {
    ShellSession {
        id: id.to_string(),
        config_id: "cfg-1".to_string(),
        config_name: "prod".to_string(),
        current_dir: dir.to_string(),
        last_output: String::new(),
        created_at: "t0".to_string(),
        updated_at: "t0".to_string(),
    }
}

fn registry_with(id: &str, dir: &str) -> SessionRegistry {
    let mut reg = SessionRegistry::new();
    reg.put_session(session(id, dir));
    reg.put_pty_channel(id.to_string());
    reg
}

#[test]
fn closed_session_refuses_write_resize_and_execute() {
    let mut reg = registry_with("s1", "/home/me");
    assert!(close_shell_session(&mut reg, "s1").is_ok());
    assert!(matches!(pty_write_input(&mut reg, "s1", "ls\n"), Err(AppError::NotFound(_))));
    assert!(matches!(pty_write_input(&mut reg, "s1", ""), Err(AppError::NotFound(_))));
    assert!(matches!(pty_resize(&mut reg, "s1", 80, 24), Err(AppError::NotFound(_))));
    assert!(matches!(prepare_command(&reg, "s1", "ls"), Err(AppError::NotFound(_))));
    assert!(close_shell_session(&mut reg, "s1").is_ok());
    assert!(reg.list_sessions().is_empty());
    let handed = reg.take_pty_commands("s1").expect("worker still drains its inbox");
    assert_eq!(handed.len(), 1);
    assert!(matches!(handed[0], PtyCommand::Close));
}

#[test]
fn input_and_resize_are_queued_in_order() {
    let mut reg = registry_with("s1", "/");
    pty_write_input(&mut reg, "s1", "top\n").expect("write");
    pty_write_input(&mut reg, "s1", "").expect("empty write");
    pty_resize(&mut reg, "s1", 5, 100).expect("resize");
    let queued = reg.take_pty_commands("s1").expect("inbox");
    assert_eq!(queued.len(), 2);
    assert!(matches!(&queued[0], PtyCommand::Input(text) if text == "top\n"));
    assert!(matches!(queued[1], PtyCommand::Resize { cols: 20, rows: 100 }));
    assert_eq!(reg.take_pty_commands("s1").expect("inbox").len(), 0);
}

#[test]
fn removing_a_worker_queues_close_after_pending_input() {
    let mut reg = registry_with("s1", "/");
    pty_write_input(&mut reg, "s1", "exit\n").expect("write");
    reg.remove_pty_channel("s1");
    assert!(matches!(pty_write_input(&mut reg, "s1", "more"), Err(AppError::NotFound(_))));
    let queued = reg.take_pty_commands("s1").expect("inbox still drains");
    assert_eq!(queued.len(), 2);
    assert!(matches!(&queued[0], PtyCommand::Input(text) if text == "exit\n"));
    assert!(matches!(queued[1], PtyCommand::Close));
    reg.remove_pty_channel("s1");
    assert_eq!(reg.take_pty_commands("s1").expect("inbox").len(), 0);
    reg.unregister_pty_channel("s1");
    assert!(reg.take_pty_commands("s1").is_none());
    assert!(matches!(reg.remove_session("s1"), Ok(())));
    assert!(matches!(reg.remove_session("s1"), Err(AppError::NotFound(_))));
}

#[test]
fn output_buffer_keeps_latest_characters() {
    let mut reg = registry_with("s1", "/");
    let first = "a".repeat(MAX_SESSION_LAST_OUTPUT_CHARS - 2);
    append_session_output(&mut reg, "s1", &first);
    append_session_output(&mut reg, "s1", "bcdé");
    let s = reg.get_session("s1").expect("session");
    assert_eq!(s.last_output.chars().count(), MAX_SESSION_LAST_OUTPUT_CHARS);
    assert!(s.last_output.ends_with("bcdé"));
    assert!(s.last_output.starts_with("aa"));
}

#[test]
fn trim_keeps_whole_characters() {
    let mut value = "héllo wörld".to_string();
    trim_to_last_chars(&mut value, 5);
    assert_eq!(value, "wörld");
    let mut short = "ab".to_string();
    trim_to_last_chars(&mut short, 5);
    assert_eq!(short, "ab");
    let mut gone = "ab".to_string();
    trim_to_last_chars(&mut gone, 0);
    assert_eq!(gone, "");
}

#[test]
fn blank_command_is_a_validation_error() {
    let reg = registry_with("s1", "/");
    assert!(matches!(prepare_command(&reg, "s1", "   "), Err(AppError::Validation(_))));
}

#[test]
fn plain_command_runs_in_tracked_directory() {
    let mut reg = registry_with("s1", "/srv/it's");
    let prepared = prepare_command(&reg, "s1", "ls -la").expect("prepare");
    assert!(!prepared.change_directory);
    assert_eq!(prepared.remote_command, "cd '/srv/it'\"'\"'s' && ls -la");
    let result = complete_command(&mut reg, &prepared, "out\n".to_string(), "warn".to_string(), 2, "t1".to_string(), 7)
        .expect("complete");
    assert_eq!(result.exit_code, 2);
    assert_eq!(result.current_dir, "/srv/it's");
    assert_eq!(result.duration_ms, 7);
    assert_eq!(reg.get_session("s1").expect("session").last_output, "out\n\nwarn");
}

#[test]
fn cd_chain_follows_remote_pwd_and_failed_cd_keeps_directory() {
    let mut reg = registry_with("s1", "/home/me");
    let p1 = prepare_command(&reg, "s1", "cd logs").expect("prepare");
    assert!(p1.change_directory);
    assert_eq!(p1.remote_command, "cd '/home/me' && cd logs && pwd");
    let r1 = complete_command(&mut reg, &p1, "/home/me/logs\n".to_string(), String::new(), 0, "t".to_string(), 1)
        .expect("cd logs");
    assert_eq!(r1.current_dir, "/home/me/logs");

    let p2 = prepare_command(&reg, "s1", "cd missing").expect("prepare");
    assert_eq!(p2.remote_command, "cd '/home/me/logs' && cd missing && pwd");
    let r2 = complete_command(&mut reg, &p2, String::new(), "no such dir".to_string(), 1, "t".to_string(), 1)
        .expect("cd missing");
    assert_eq!(r2.current_dir, "/home/me/logs");

    let p3 = prepare_command(&reg, "s1", "  cd  ").expect("prepare");
    assert_eq!(p3.remote_command, "cd '/home/me/logs' && cd ~ && pwd");
    let r3 = complete_command(&mut reg, &p3, "//root//\n".to_string(), String::new(), 0, "t".to_string(), 1)
        .expect("cd home");
    assert_eq!(r3.current_dir, "/root");
    let s = reg.get_session("s1").expect("session");
    assert_eq!(s.current_dir, "/root");
    assert_eq!(s.last_output, "//root//");
}

#[test]
fn completing_for_a_vanished_session_is_not_found() {
    let mut reg = registry_with("s1", "/");
    let prepared = prepare_command(&reg, "s1", "uptime").expect("prepare");
    close_shell_session(&mut reg, "s1").expect("close");
    let r = complete_command(&mut reg, &prepared, String::new(), String::new(), 0, "t".to_string(), 0);
    assert!(matches!(r, Err(AppError::NotFound(_))));
}

#[test]
fn put_session_replaces_same_id() {
    let mut reg = SessionRegistry::new();
    reg.put_session(session("s1", "/a"));
    reg.put_session(session("s1", "/b"));
    reg.put_session(session("s2", "/c"));
    assert_eq!(reg.list_sessions().len(), 2);
    assert_eq!(reg.get_session("s1").expect("s1").current_dir, "/b");
}

#[test]
fn worker_closes_then_removes_its_session() {
    let (s, a) = worker_step(WorkerState::Starting, WorkerEvent::Opened);
    assert_eq!(s, WorkerState::Running);
    assert!(matches!(a, WorkerAction::Nothing));
    let (s, a) = worker_step(s, WorkerEvent::Command(PtyCommand::Input("ls\n".to_string())));
    assert_eq!(s, WorkerState::Running);
    assert!(matches!(a, WorkerAction::Write(ref t) if t == "ls\n"));
    let (s, a) = worker_step(s, WorkerEvent::Output("out".to_string()));
    assert!(matches!(a, WorkerAction::Publish(ref t) if t == "out"));
    let (s, a) = worker_step(s, WorkerEvent::NoOutput { eof: false });
    assert!(matches!(a, WorkerAction::Sleep));
    let (s, a) = worker_step(s, WorkerEvent::Command(PtyCommand::Close));
    assert_eq!(s, WorkerState::Closing);
    assert!(matches!(a, WorkerAction::CloseChannel));
    let (s, a) = worker_step(s, WorkerEvent::Output("late".to_string()));
    assert_eq!(s, WorkerState::Closing);
    assert!(matches!(a, WorkerAction::Nothing));
    let (s, a) = worker_step(s, WorkerEvent::ChannelClosed);
    assert_eq!(s, WorkerState::Closed);
    assert!(matches!(a, WorkerAction::RemoveSession));
    let (s, a) = worker_step(s, WorkerEvent::Opened);
    assert_eq!(s, WorkerState::Closed);
    assert!(matches!(a, WorkerAction::Nothing));
}

#[test]
fn channel_end_or_failures_close_the_worker() {
    for event in [WorkerEvent::NoOutput { eof: true }, WorkerEvent::InboxGone, WorkerEvent::WriteFailed, WorkerEvent::ReadFailed] {
        assert_eq!(worker_step(WorkerState::Running, event).0, WorkerState::Closing);
    }
    assert_eq!(worker_step(WorkerState::Starting, WorkerEvent::OpenFailed).0, WorkerState::Closed);
}

#[test]
fn write_attempts_progress_back_off_or_fail() {
    assert_eq!(write_step(0, 10, WriteOutcome::Wrote(4), false), WriteDecision::Continue(4));
    assert_eq!(write_step(4, 10, WriteOutcome::Wrote(6), false), WriteDecision::Flush);
    assert_eq!(write_step(4, 10, WriteOutcome::Wrote(0), false), WriteDecision::Backoff(4));
    assert_eq!(write_step(4, 10, WriteOutcome::Wrote(0), true), WriteDecision::Fail);
    assert_eq!(write_step(4, 10, WriteOutcome::WouldBlock, true), WriteDecision::Backoff(4));
    assert_eq!(write_step(4, 10, WriteOutcome::Failed, false), WriteDecision::Fail);
}

#[test]
fn flush_attempts_finish_back_off_or_fail() {
    assert_eq!(flush_step(FlushOutcome::Flushed), FlushDecision::Done);
    assert_eq!(flush_step(FlushOutcome::WouldBlock), FlushDecision::Backoff);
    assert_eq!(flush_step(FlushOutcome::Failed), FlushDecision::Fail);
}
