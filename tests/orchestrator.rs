use eshell_core::agent_store::OpsAgentStore;
use eshell_core::agent_types::{
    OpsAgentActionStatus, OpsAgentChatInput, OpsAgentData, OpsAgentResolveActionInput, OpsAgentRole,
    OpsAgentStreamStage, OpsAgentToolKind, PlannedAgentReply, PlannedToolAction,
};
use eshell_core::error::AppError;
use eshell_core::orchestrator::{
    complete_pending_action, format_execution_output, normalized_reply, on_plan, on_read_result, on_summary,
    resolve_pending_action, split_stream_chunks, start_chat_stream, ChatRun, ChatRunRequest, ChatRunStage,
    ResolutionStep,
};
use eshell_core::planner::parse_plan_payload;
use eshell_core::shell::CommandExecutionResult;

fn empty_store() -> OpsAgentStore {
    OpsAgentStore::from_data(OpsAgentData { conversations: Vec::new(), active_conversation_id: None, pending_actions: Vec::new() })
}

fn start(store: &mut OpsAgentStore, session: Option<&str>, question: &str) -> ChatRun {
    let input = OpsAgentChatInput {
        conversation_id: None,
        session_id: session.map(|s| s.to_string()),
        question: question.to_string(),
    };
    let (accepted, run) = start_chat_stream(store, input).expect("start");
    assert_eq!(accepted.conversation_id, run.conversation_id);
    run
}

fn exec(stdout: &str, stderr: &str, code: i32) -> CommandExecutionResult {
    CommandExecutionResult {
        session_id: "s1".to_string(),
        command: "c".to_string(),
        stdout: stdout.to_string(),
        stderr: stderr.to_string(),
        exit_code: code,
        current_dir: "/".to_string(),
        started_at: "t".to_string(),
        finished_at: "t".to_string(),
        duration_ms: 1,
    }
}

#[test]
fn chunks_are_cut_by_characters() {
    let text = "é".repeat(80);
    let chunks = split_stream_chunks(&text, 36);
    assert_eq!(chunks.len(), 3);
    assert_eq!(chunks[0].chars().count(), 36);
    assert_eq!(chunks[2].chars().count(), 8);
    assert!(split_stream_chunks("", 36).is_empty());
    assert!(split_stream_chunks("abc", 0).is_empty());
    assert_eq!(split_stream_chunks("abc", 3), vec!["abc".to_string()]);
}

#[test]
fn replies_fall_back_when_blank() {
    assert_eq!(normalized_reply("  ".to_string(), "fb"), "fb");
    assert_eq!(normalized_reply("ok".to_string(), "fb"), "ok");
}

#[test]
fn execution_output_report() {
    assert_eq!(format_execution_output("a\n", "", 0), "stdout:\na\n\nexitCode: 0");
    assert_eq!(format_execution_output("a", "b \n", 1), "stdout:\na\n\nstderr:\nb\n\nexitCode: 1");
    assert_eq!(format_execution_output(" ", "", -1), "<empty output>\n\nexitCode: -1");
}

#[test]
fn blank_chat_question_is_refused() {
    let mut store = empty_store();
    let input = OpsAgentChatInput { conversation_id: None, session_id: None, question: "  ".to_string() };
    assert!(matches!(start_chat_stream(&mut store, input), Err(AppError::Validation(_))));
    let missing = OpsAgentChatInput { conversation_id: Some("nope".to_string()), session_id: None, question: "hi".to_string() };
    assert!(matches!(start_chat_stream(&mut store, missing), Err(AppError::NotFound(_))));
}

#[test]
fn empty_command_plan_runs_nothing() {
    let mut store = empty_store();
    let mut run = start(&mut store, Some("s1"), "check");
    let plan = parse_plan_payload(r#"{"reply":"ok","tool":{"kind":"read_shell","command":"","reason":"x"}}"#);
    assert_eq!(plan.tool.kind, OpsAgentToolKind::NoTool);
    let (events, request) = on_plan(&mut run, &mut store, plan).expect("plan");
    assert!(matches!(request, ChatRunRequest::Done));
    assert!(events.iter().all(|e| !matches!(e.stage, OpsAgentStreamStage::ToolRead)));
    let last = events.last().expect("completed");
    assert!(matches!(last.stage, OpsAgentStreamStage::Completed));
    assert_eq!(last.full_answer, Some("ok".to_string()));
    assert!(store.list_pending_actions(None, false).is_empty());
}

#[test]
fn read_without_command_gets_fallback() {
    let mut store = empty_store();
    let mut run = start(&mut store, Some("s1"), "check");
    let plan = PlannedAgentReply {
        reply: String::new(),
        tool: PlannedToolAction { kind: OpsAgentToolKind::ReadShell, command: None, reason: None },
    };
    let (events, _) = on_plan(&mut run, &mut store, plan).expect("plan");
    assert_eq!(
        events.last().expect("completed").full_answer,
        Some("我没有拿到可执行的 read_shell 命令，请补充需求后重试。".to_string())
    );
}

#[test]
fn write_plan_requires_approval_and_runs_nothing() {
    let mut store = empty_store();
    let mut run = start(&mut store, Some("s1"), "please reboot");
    let plan = parse_plan_payload(r#"{"reply":"","tool":{"kind":"write_shell","command":"reboot","reason":"kernel"}}"#);
    let (events, request) = on_plan(&mut run, &mut store, plan).expect("plan");
    assert!(matches!(request, ChatRunRequest::Done));
    let approvals: Vec<_> = events.iter().filter(|e| matches!(e.stage, OpsAgentStreamStage::RequiresApproval)).collect();
    assert_eq!(approvals.len(), 1);
    let action = approvals[0].pending_action.clone().expect("action");
    assert_eq!(action.status, OpsAgentActionStatus::Pending);
    assert_eq!(action.command, "reboot");
    assert_eq!(action.session_id, Some("s1".to_string()));
    assert!(matches!(events[0].stage, OpsAgentStreamStage::RequiresApproval));
    let done = events.last().expect("completed");
    assert!(matches!(done.stage, OpsAgentStreamStage::Completed));
    assert_eq!(done.pending_action.as_ref().map(|a| a.id.clone()), Some(action.id.clone()));
    assert_eq!(
        done.full_answer,
        Some("我生成了一个 write_shell 操作，已进入待确认队列。请在前端确认或拒绝后执行。".to_string())
    );
    assert_eq!(store.get_pending_action(&action.id).expect("stored").status, OpsAgentActionStatus::Pending);

    let step = resolve_pending_action(&mut store, &OpsAgentResolveActionInput { action_id: action.id.clone(), approve: true })
        .expect("approve");
    let (session_id, command) = match step {
        ResolutionStep::Execute { session_id, command } => (session_id, command),
        ResolutionStep::Resolved(_) => panic!("expected execution"),
    };
    assert_eq!(session_id, "s1");
    assert_eq!(command, "reboot");
    let result = complete_pending_action(&mut store, &action.id, Ok(exec("bye", "", 0))).expect("complete");
    assert_eq!(result.action.status, OpsAgentActionStatus::Executed);
    assert_eq!(result.action.execution_output, Some("stdout:\nbye\n\nexitCode: 0".to_string()));
    assert_eq!(result.action.execution_exit_code, Some(0));
    assert_eq!(result.note, "Action approved and executed");

    let again = resolve_pending_action(&mut store, &OpsAgentResolveActionInput { action_id: action.id.clone(), approve: false });
    assert!(matches!(again, Err(AppError::Validation(_))));
    let after = store.get_pending_action(&action.id).expect("stored");
    assert_eq!(after.status, OpsAgentActionStatus::Executed);
    assert_eq!(after.execution_output, Some("stdout:\nbye\n\nexitCode: 0".to_string()));
    assert!(matches!(complete_pending_action(&mut store, &action.id, Ok(exec("x", "", 1))), Err(AppError::Validation(_))));
}

#[test]
fn rejection_and_missing_session() {
    let mut store = empty_store();
    let mut run = start(&mut store, None, "stop nginx");
    let plan = PlannedAgentReply {
        reply: "will do".to_string(),
        tool: PlannedToolAction { kind: OpsAgentToolKind::WriteShell, command: Some("systemctl stop nginx".to_string()), reason: None },
    };
    let (events, _) = on_plan(&mut run, &mut store, plan).expect("plan");
    let action = events[0].pending_action.clone().expect("action");
    assert_eq!(action.reason, "requested by agent");
    let step = resolve_pending_action(&mut store, &OpsAgentResolveActionInput { action_id: action.id.clone(), approve: true })
        .expect("approve");
    match step {
        ResolutionStep::Resolved(res) => {
            assert_eq!(res.action.status, OpsAgentActionStatus::Failed);
            assert_eq!(res.action.execution_output, Some("missing session id for write_shell".to_string()));
            assert_eq!(res.note, "Action failed: missing session id");
        }
        ResolutionStep::Execute { .. } => panic!("no session to run on"),
    }
    let mut run2 = start(&mut store, Some("s9"), "restart");
    let plan = PlannedAgentReply {
        reply: String::new(),
        tool: PlannedToolAction { kind: OpsAgentToolKind::WriteShell, command: Some("reboot".to_string()), reason: Some("r".to_string()) },
    };
    let (events, _) = on_plan(&mut run2, &mut store, plan).expect("plan");
    let action2 = events[0].pending_action.clone().expect("action");
    let step = resolve_pending_action(&mut store, &OpsAgentResolveActionInput { action_id: action2.id.clone(), approve: false })
        .expect("reject");
    match step {
        ResolutionStep::Resolved(res) => {
            assert_eq!(res.action.status, OpsAgentActionStatus::Rejected);
            assert_eq!(res.note, "Action rejected");
        }
        ResolutionStep::Execute { .. } => panic!("rejected"),
    }
    let conversation = store.get_conversation(&run2.conversation_id).expect("conversation");
    let notice = &conversation.messages.last().expect("notice").content;
    assert_eq!(notice, "Write-shell action rejected.\nCommand: reboot\nReason: r");
    assert!(matches!(
        resolve_pending_action(&mut store, &OpsAgentResolveActionInput { action_id: "nope".to_string(), approve: true }),
        Err(AppError::NotFound(_))
    ));
}

#[test]
fn read_plan_runs_then_summarizes() {
    let mut store = empty_store();
    let mut run = start(&mut store, Some("s1"), "disk?");
    let plan = PlannedAgentReply {
        reply: "checking".to_string(),
        tool: PlannedToolAction { kind: OpsAgentToolKind::ReadShell, command: Some("df -h".to_string()), reason: None },
    };
    let (events, request) = on_plan(&mut run, &mut store, plan).expect("plan");
    assert!(events.is_empty());
    match &request {
        ChatRunRequest::ReadCommand { session_id, command } => {
            assert_eq!(session_id, "s1");
            assert_eq!(command, "df -h");
        }
        _ => panic!("expected a read"),
    }
    let (events, request) = on_read_result(&mut run, &mut store, Ok(exec("ok", "", 0))).expect("read");
    assert_eq!(events.len(), 1);
    assert!(matches!(events[0].stage, OpsAgentStreamStage::ToolRead));
    assert_eq!(events[0].chunk, Some("read_shell: df -h".to_string()));
    match &request {
        ChatRunRequest::Summarize { command, output, exit_code } => {
            assert_eq!(command, "df -h");
            assert_eq!(output, "stdout:\nok\n\nexitCode: 0");
            assert_eq!(*exit_code, 0);
        }
        _ => panic!("expected a summary request"),
    }
    assert_eq!(run.stage, ChatRunStage::Summarizing);
    let (events, request) = on_summary(&mut run, &mut store, None).expect("summary");
    assert!(matches!(request, ChatRunRequest::Done));
    assert_eq!(events.last().expect("done").full_answer, Some("checking".to_string()));
    let conversation = store.get_conversation(&run.conversation_id).expect("conversation");
    let roles: Vec<OpsAgentRole> = conversation.messages.iter().map(|m| m.role).collect();
    assert_eq!(roles, vec![OpsAgentRole::User, OpsAgentRole::Tool, OpsAgentRole::Assistant]);
    assert_eq!(conversation.messages[1].content, "read_shell executed.\nCommand: df -h\nExit: 0\nstdout:\nok\n\nexitCode: 0");
}

#[test]
fn failed_read_becomes_the_answer() {
    let mut store = empty_store();
    let mut run = start(&mut store, Some("s1"), "disk?");
    let plan = PlannedAgentReply {
        reply: String::new(),
        tool: PlannedToolAction { kind: OpsAgentToolKind::ReadShell, command: Some("df".to_string()), reason: None },
    };
    on_plan(&mut run, &mut store, plan).expect("plan");
    let (events, _) = on_read_result(&mut run, &mut store, Err(AppError::Runtime("timeout".to_string()))).expect("read");
    assert_eq!(
        events.last().expect("done").full_answer,
        Some("read_shell 执行失败：runtime error: timeout".to_string())
    );
}

#[test]
fn missing_command_or_session_prefers_reply_then_fallback() {
    let mut store = empty_store();
    let mut run = start(&mut store, None, "look");
    let plan = PlannedAgentReply {
        reply: "sure, running it".to_string(),
        tool: PlannedToolAction { kind: OpsAgentToolKind::ReadShell, command: Some("uptime".to_string()), reason: None },
    };
    let (events, request) = on_plan(&mut run, &mut store, plan).expect("plan");
    assert!(matches!(request, ChatRunRequest::Done));
    assert_eq!(
        events.last().expect("completed").full_answer,
        Some("sure, running it".to_string())
    );
    let mut run1 = start(&mut store, None, "look again");
    let blank = PlannedAgentReply {
        reply: "  ".to_string(),
        tool: PlannedToolAction { kind: OpsAgentToolKind::ReadShell, command: Some("uptime".to_string()), reason: None },
    };
    let (events, _) = on_plan(&mut run1, &mut store, blank).expect("plan");
    assert_eq!(
        events.last().expect("completed").full_answer,
        Some("当前没有可用 SSH 会话，无法执行 read_shell 工具。".to_string())
    );
    let mut run2 = start(&mut store, Some("s1"), "fix");
    let plan = PlannedAgentReply {
        reply: "will fix".to_string(),
        tool: PlannedToolAction { kind: OpsAgentToolKind::WriteShell, command: None, reason: None },
    };
    let (events, _) = on_plan(&mut run2, &mut store, plan).expect("plan");
    assert_eq!(events.last().expect("completed").full_answer, Some("will fix".to_string()));
    let conversation = store.get_conversation(&run2.conversation_id).expect("conversation");
    let last = conversation.messages.last().expect("answer");
    assert_eq!(last.role, OpsAgentRole::Assistant);
    assert_eq!(last.content, "will fix");
}

#[test]
fn chat_on_existing_conversation_keeps_history() {
    let mut store = empty_store();
    let first = start(&mut store, Some("s1"), "one");
    let other = store.create_conversation(None, None);
    let input = OpsAgentChatInput {
        conversation_id: Some(first.conversation_id.clone()),
        session_id: None,
        question: "  two ".to_string(),
    };
    let (accepted, run) = start_chat_stream(&mut store, input).expect("start");
    assert_eq!(accepted.conversation_id, first.conversation_id);
    assert_ne!(run.conversation_id, other.id);
    let conversation = store.get_conversation(&run.conversation_id).expect("conversation");
    let contents: Vec<&str> = conversation.messages.iter().map(|m| m.content.as_str()).collect();
    assert_eq!(contents, vec!["one", "two"]);
    assert_eq!(store.snapshot().active_conversation_id, Some(run.conversation_id.clone()));
}

#[test]
fn failed_execution_closes_action_as_failed() {
    let mut store = empty_store();
    let mut run = start(&mut store, Some("s1"), "restart");
    let plan = PlannedAgentReply {
        reply: String::new(),
        tool: PlannedToolAction { kind: OpsAgentToolKind::WriteShell, command: Some("reboot".to_string()), reason: None },
    };
    let (events, _) = on_plan(&mut run, &mut store, plan).expect("plan");
    let action = events[0].pending_action.clone().expect("action");
    let result = complete_pending_action(&mut store, &action.id, Err(AppError::Runtime("ssh down".to_string())))
        .expect("complete");
    assert_eq!(result.action.status, OpsAgentActionStatus::Failed);
    assert_eq!(result.action.execution_output, Some("runtime error: ssh down".to_string()));
    assert_eq!(result.action.execution_exit_code, None);
    assert_eq!(result.note, "Action approved but execution failed");
    assert!(matches!(
        resolve_pending_action(&mut store, &OpsAgentResolveActionInput { action_id: action.id.clone(), approve: true }),
        Err(AppError::Validation(_))
    ));
}
