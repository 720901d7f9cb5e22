use eshell_core::ai_assist::{
    ai_role_to_wire, answer_from_text, build_ask_messages, extract_suggested_command, AiAskInput, AiRole,
};
use eshell_core::error::AppError;

#[test]
fn extract_suggested_command_from_fenced_block() {
    let text = "可以执行：\n```bash\nls -la\npwd\n```";
    let command = extract_suggested_command(text).expect("command");
    assert_eq!(command, "ls -la\npwd");
}

#[test]
fn extract_suggested_command_from_prompt_line() {
    let text = "先检查：\n$ df -h";
    let command = extract_suggested_command(text).expect("command");
    assert_eq!(command, "df -h");
}

#[test]
fn blank_fenced_block_falls_back_to_prompt_line() {
    let text = "```\n   \n```\n  $ uptime  \n";
    assert_eq!(extract_suggested_command(text), Some("uptime".to_string()));
}

#[test]
fn unclosed_block_runs_to_the_end() {
    let text = "```sh\r\nfree -m\r\n";
    assert_eq!(extract_suggested_command(text), Some("free -m".to_string()));
}

#[test]
fn no_command_in_plain_text() {
    assert_eq!(extract_suggested_command("all good\n$ \n"), None);
    assert_eq!(extract_suggested_command(""), None);
}

#[test]
fn roles_have_wire_names() {
    assert_eq!(ai_role_to_wire(&AiRole::System), "system");
    assert_eq!(ai_role_to_wire(&AiRole::User), "user");
    assert_eq!(ai_role_to_wire(&AiRole::Assistant), "assistant");
}

#[test]
fn ask_messages_carry_terminal_context() {
    let input = AiAskInput { question: "  why?  ".to_string(), session_id: None, include_last_output: true };
    let messages = build_ask_messages("sys", &input, Some("err: 1".to_string())).expect("messages");
    assert_eq!(messages.len(), 2);
    assert_eq!(messages[0].content, "sys");
    assert_eq!(messages[1].content, "why?\n\nTerminal output context:\nerr: 1");
    let plain = build_ask_messages("sys", &AiAskInput { include_last_output: false, ..input.clone() }, Some("x".to_string()))
        .expect("messages");
    assert_eq!(plain[1].content, "why?");
}

#[test]
fn blank_question_is_refused() {
    let input = AiAskInput { question: " \n".to_string(), session_id: None, include_last_output: false };
    assert!(matches!(build_ask_messages("sys", &input, None), Err(AppError::Validation(_))));
}

#[test]
fn answer_carries_its_suggestion() {
    let answer = answer_from_text("run\n$ ls".to_string());
    assert_eq!(answer.answer, "run\n$ ls");
    assert_eq!(answer.suggested_command, Some("ls".to_string()));
}
