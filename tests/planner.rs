use eshell_core::agent_types::{OpsAgentMessage, OpsAgentRole, OpsAgentToolKind};
use eshell_core::error::AppError;
use eshell_core::planner::{
    build_planner_system_prompt, build_tool_result_message, build_tool_summary_prompt, convert_history_message,
    decode_plan_payload, extract_json_payload, normalize_planned_reply, parse_plan_payload, planner_messages,
    validate_ai_config, PlanPayload, PlanToolPayload,
};

#[test]
fn empty_command_forces_no_tool() {
    let plan = parse_plan_payload(r#"{"reply":"ok","tool":{"kind":"read_shell","command":"","reason":"x"}}"#);
    assert_eq!(plan.reply, "ok");
    assert_eq!(plan.tool.kind, OpsAgentToolKind::NoTool);
    assert_eq!(plan.tool.command, None);
    assert_eq!(plan.tool.reason, Some("x".to_string()));
}

#[test]
fn json_inside_prose_is_found() {
    let raw = "Sure! {\"reply\":\" rebooting \",\"tool\":{\"kind\":\"WRITE_SHELL\",\"command\":\" reboot \"}} done";
    assert_eq!(
        extract_json_payload(raw),
        Some("{\"reply\":\" rebooting \",\"tool\":{\"kind\":\"WRITE_SHELL\",\"command\":\" reboot \"}}".to_string())
    );
    let plan = parse_plan_payload(raw);
    assert_eq!(plan.reply, "rebooting");
    assert_eq!(plan.tool.kind, OpsAgentToolKind::WriteShell);
    assert_eq!(plan.tool.command, Some("reboot".to_string()));
    assert_eq!(plan.tool.reason, None);
}

#[test]
fn json_span_edge_cases() {
    assert_eq!(extract_json_payload("  {x}  "), Some("{x}".to_string()));
    assert_eq!(extract_json_payload("} then {"), None);
    assert_eq!(extract_json_payload("no braces"), None);
}

#[test]
fn unparseable_reply_becomes_the_answer() {
    let plan = parse_plan_payload("  just text {not json}  ");
    assert_eq!(plan.reply, "just text {not json}");
    assert_eq!(plan.tool.kind, OpsAgentToolKind::NoTool);
    assert_eq!(plan.tool.command, None);
    let typed = parse_plan_payload(r#"{"reply": 5}"#);
    assert_eq!(typed.reply, r#"{"reply": 5}"#);
}

#[test]
fn decoding_accepts_nulls_and_missing_members() {
    let p = decode_plan_payload(r#"{"reply":null,"tool":null}"#).expect("decoded");
    assert!(p.reply.is_none());
    assert!(p.tool.is_none());
    assert!(decode_plan_payload("[1,2]").is_none());
    assert!(decode_plan_payload(r#"{"tool":"read_shell"}"#).is_none());
}

#[test]
fn normalization_without_tool_is_none() {
    let r = normalize_planned_reply(PlanPayload { reply: None, tool: None });
    assert_eq!(r.reply, "");
    assert_eq!(r.tool.kind, OpsAgentToolKind::NoTool);
    let r = normalize_planned_reply(PlanPayload {
        reply: Some("x".to_string()),
        tool: Some(PlanToolPayload { kind: Some(" Read_Shell ".to_string()), command: Some("df -h".to_string()), reason: None }),
    });
    assert_eq!(r.tool.kind, OpsAgentToolKind::ReadShell);
}

#[test]
fn history_messages_are_converted() {
    let tool = OpsAgentMessage {
        id: "m".to_string(),
        role: OpsAgentRole::Tool,
        content: "out".to_string(),
        created_at: "t".to_string(),
        tool_kind: None,
    };
    let wire = convert_history_message(&tool);
    assert_eq!(wire.role, "user");
    assert_eq!(wire.content, "[tool-result]\nout");
    let assistant = OpsAgentMessage { role: OpsAgentRole::Assistant, ..tool.clone() };
    let wire = convert_history_message(&assistant);
    assert_eq!(wire.role, "assistant");
    assert_eq!(wire.content, "out");
    let messages = planner_messages("base", Some("s1"), &[tool], "  q  ");
    assert_eq!(messages.len(), 3);
    assert_eq!(messages[0].role, "system");
    assert!(messages[0].content.starts_with("base\n\nYou are an operations agent planner."));
    assert!(messages[0].content.ends_with("Current SSH session id: s1"));
    assert_eq!(messages[2].content, "q");
}

#[test]
fn prompts_and_reports() {
    assert!(build_planner_system_prompt(" p ", None).ends_with("\nCurrent SSH session id: unavailable"));
    assert!(build_tool_summary_prompt(" p ").starts_with("p\n\nGiven shell tool execution result"));
    assert_eq!(
        build_tool_result_message(OpsAgentToolKind::ReadShell, "ls", "a", Some(-3)),
        "Tool execution result\nkind: ReadShell\ncommand: ls\nexitCode: -3\noutput:\na"
    );
    assert_eq!(
        build_tool_result_message(OpsAgentToolKind::WriteShell, "x", "", None),
        "Tool execution result\nkind: WriteShell\ncommand: x\nexitCode: n/a\noutput:\n"
    );
}

#[test]
fn ai_settings_must_not_be_blank() {
    assert!(validate_ai_config("u", "k", "m").is_ok());
    assert!(matches!(validate_ai_config(" ", "k", "m"), Err(AppError::Validation(_))));
    assert!(matches!(validate_ai_config("u", "", "m"), Err(AppError::Validation(_))));
    assert!(matches!(validate_ai_config("u", "k", "\t"), Err(AppError::Validation(_))));
}
