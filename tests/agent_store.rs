use eshell_core::agent_store::{
    derive_conversation_title, derive_title_from_first_user_prompt, should_auto_rename_title, OpsAgentStore,
};
use eshell_core::agent_types::{
    OpsAgentActionStatus, OpsAgentConversation, OpsAgentConversationSummary, OpsAgentData, OpsAgentMessage,
    OpsAgentRole, OpsAgentToolKind,
};
use eshell_core::error::AppError;

fn empty_store() -> OpsAgentStore {
    OpsAgentStore::from_data(OpsAgentData {
        conversations: Vec::new(),
        active_conversation_id: None,
        pending_actions: Vec::new(),
    })
}

#[test]
fn conversation_and_action_crud_works() {
    let mut store = empty_store();
    let conversation = store.create_conversation(Some("CPU analysis"), Some("session-1"));
    assert_eq!(store.list_conversation_summaries().len(), 1);

    store
        .append_message(&conversation.id, OpsAgentRole::User, "check cpu", None)
        .expect("append user");
    store
        .append_message(
            &conversation.id,
            OpsAgentRole::Assistant,
            "running read_shell",
            Some(OpsAgentToolKind::ReadShell),
        )
        .expect("append assistant");

    let action = store
        .create_pending_action(&conversation.id, Some("session-1"), "reboot", "danger")
        .expect("create action");
    assert_eq!(action.status, OpsAgentActionStatus::Pending);
    assert_eq!(store.list_pending_actions(Some("session-1"), true).len(), 1);

    let rejected = store.mark_action_rejected(&action.id).expect("reject");
    assert_eq!(rejected.status, OpsAgentActionStatus::Rejected);
}

#[test]
fn first_user_message_derives_short_title() {
    let mut store = empty_store();
    let conversation = store.create_conversation(None, Some("session-1"));

    store
        .append_message(&conversation.id, OpsAgentRole::User, "abcdefghijklmnopqrstuvwxyz", None)
        .expect("append user");

    let loaded = store.get_conversation(&conversation.id).expect("load conversation");
    assert_eq!(loaded.title, "abcdefghij...");
}

#[test]
fn title_is_derived_only_once() {
    let mut store = empty_store();
    let conversation = store.create_conversation(None, None);
    assert_eq!(conversation.title, "New Conversation");
    store.append_message(&conversation.id, OpsAgentRole::User, "abcdefghijklmnopqrstuvwxyz", None).expect("first");
    store.append_message(&conversation.id, OpsAgentRole::User, "zzz", None).expect("second");
    let loaded = store.get_conversation(&conversation.id).expect("load");
    assert_eq!(loaded.title, "abcdefghij...");
    assert_eq!(loaded.messages.len(), 2);
    assert_eq!(loaded.messages[1].content, "zzz");
}

#[test]
fn titles_are_derived_from_text() {
    assert_eq!(derive_conversation_title(None), "New Conversation");
    assert_eq!(derive_conversation_title(Some("   ")), "New Conversation");
    assert_eq!(derive_conversation_title(Some(" a\nb ")), "a b");
    assert_eq!(derive_conversation_title(Some("123456789012345678901234567")), "123456789012345678901234...");
    assert_eq!(derive_title_from_first_user_prompt("a\r\nb"), "a  b");
    assert_eq!(derive_title_from_first_user_prompt("短标题"), "短标题");
    assert_eq!(derive_title_from_first_user_prompt(" \n "), "New Conversation");
    assert!(should_auto_rename_title(" New Conversation "));
    assert!(should_auto_rename_title(""));
    assert!(!should_auto_rename_title("Disk check"));
}

#[test]
fn append_refuses_blank_and_unknown() {
    let mut store = empty_store();
    let conversation = store.create_conversation(None, None);
    assert!(matches!(
        store.append_message(&conversation.id, OpsAgentRole::User, "  \n", None),
        Err(AppError::Validation(_))
    ));
    assert!(matches!(store.append_message("nope", OpsAgentRole::User, "hi", None), Err(AppError::NotFound(_))));
    let m = store.append_message(&conversation.id, OpsAgentRole::Tool, "  out  ", None).expect("append");
    assert_eq!(m.content, "out");
}

#[test]
fn delete_cascades_and_repairs_active() {
    let mut store = empty_store();
    let a = store.create_conversation(Some("a"), Some("s"));
    let b = store.create_conversation(Some("b"), Some("s"));
    store.create_pending_action(&b.id, Some("s"), "rm x", "why").expect("action b");
    store.create_pending_action(&a.id, Some("s"), "rm y", "why").expect("action a");
    store.delete_conversation(&b.id).expect("delete");
    assert!(matches!(store.delete_conversation(&b.id), Err(AppError::NotFound(_))));
    assert!(matches!(store.get_conversation(&b.id), Err(AppError::NotFound(_))));
    let remaining = store.list_pending_actions(None, false);
    assert_eq!(remaining.len(), 1);
    assert_eq!(remaining[0].conversation_id, a.id);
    assert_eq!(store.snapshot().active_conversation_id, Some(a.id.clone()));
}

#[test]
fn pending_action_validation_and_filters() {
    let mut store = empty_store();
    let c = store.create_conversation(None, None);
    assert!(matches!(store.create_pending_action(&c.id, None, "  ", "r"), Err(AppError::Validation(_))));
    assert!(matches!(store.create_pending_action("nope", None, "ls", "r"), Err(AppError::NotFound(_))));
    let a1 = store.create_pending_action(&c.id, Some("s1"), " reboot ", " r ").expect("a1");
    assert_eq!(a1.command, "reboot");
    assert_eq!(a1.reason, "r");
    let a2 = store.create_pending_action(&c.id, None, "halt", "r").expect("a2");
    store.mark_action_executed(&a2.id, "done".to_string(), 0).expect("exec");
    assert_eq!(store.list_pending_actions(None, true).len(), 1);
    assert_eq!(store.list_pending_actions(None, false).len(), 2);
    assert_eq!(store.list_pending_actions(Some("s1"), false).len(), 1);
    assert_eq!(store.list_pending_actions(Some("s2"), false).len(), 0);
    let executed = store.get_pending_action(&a2.id).expect("get");
    assert_eq!(executed.status, OpsAgentActionStatus::Executed);
    assert_eq!(executed.execution_output, Some("done".to_string()));
    assert_eq!(executed.execution_exit_code, Some(0));
    assert!(executed.resolved_at.is_some());
    let failed = store.mark_action_failed(&a1.id, "boom".to_string()).expect("fail");
    assert_eq!(failed.status, OpsAgentActionStatus::Failed);
    assert_eq!(failed.execution_exit_code, None);
}

#[test]
fn ensure_binds_session_once_and_activates() {
    let mut store = empty_store();
    let c = store.create_conversation(None, None);
    let other = store.create_conversation(None, None);
    let bound = store.ensure_conversation(Some(&c.id), Some("s1")).expect("ensure");
    assert_eq!(bound.session_id, Some("s1".to_string()));
    let again = store.ensure_conversation(Some(&c.id), Some("s2")).expect("ensure again");
    assert_eq!(again.session_id, Some("s1".to_string()));
    assert_eq!(store.snapshot().active_conversation_id, Some(c.id.clone()));
    assert!(matches!(store.ensure_conversation(Some("nope"), None), Err(AppError::NotFound(_))));
    store.set_active_conversation(&other.id).expect("activate");
    assert!(matches!(store.set_active_conversation("nope"), Err(AppError::NotFound(_))));
    let fresh = store.ensure_conversation(None, Some("s3")).expect("new");
    assert_eq!(fresh.session_id, Some("s3".to_string()));
    assert_eq!(store.list_conversation_summaries().len(), 3);
}

#[test]
fn summary_previews_last_message() {
    let conversation = OpsAgentConversation {
        id: "c1".to_string(),
        title: "t".to_string(),
        session_id: None,
        messages: vec![OpsAgentMessage {
            id: "m1".to_string(),
            role: OpsAgentRole::User,
            content: format!("  line one\nline two{}  ", "x".repeat(130)),
            created_at: "t".to_string(),
            tool_kind: None,
        }],
        created_at: "t".to_string(),
        updated_at: "u".to_string(),
    };
    let summary = OpsAgentConversationSummary::from_conversation(&conversation);
    assert_eq!(summary.message_count, 1);
    let preview = summary.last_message_preview.expect("preview");
    assert!(preview.starts_with("line one line two"));
    assert!(preview.ends_with("..."));
    assert_eq!(preview.chars().count(), 123);
    let empty = OpsAgentConversation { messages: Vec::new(), ..conversation };
    assert_eq!(OpsAgentConversationSummary::from_conversation(&empty).last_message_preview, None);
}
