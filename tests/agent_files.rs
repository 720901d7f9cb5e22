use eshell_core::agent_files::{
    conversation_file_name, normalize_data, order_conversations_by_index, OpsAgentConversationListData,
};
use eshell_core::agent_store::OpsAgentStore;
use eshell_core::agent_types::{OpsAgentActionStatus, OpsAgentConversation, OpsAgentData, OpsAgentRole};
use eshell_core::models::{download_file_name, entry_from_raw, sort_entries, stat_to_entry_type, RawDirEntry, SftpEntry, SftpEntryType};

fn conversation(id: &str, created: &str) -> OpsAgentConversation {
    OpsAgentConversation {
        id: id.to_string(),
        title: id.to_string(),
        session_id: None,
        messages: Vec::new(),
        created_at: created.to_string(),
        updated_at: created.to_string(),
    }
}

fn ids(rows: &[OpsAgentConversation]) -> Vec<String> {
    rows.iter().map(|c| c.id.clone()).collect()
}

#[test]
fn reload_reproduces_ids_order_and_statuses() {
    let mut store = OpsAgentStore::from_data(OpsAgentData {
        conversations: Vec::new(),
        active_conversation_id: None,
        pending_actions: Vec::new(),
    });
    let a = store.create_conversation(Some("a"), Some("s"));
    let b = store.create_conversation(Some("b"), Some("s"));
    store.append_message(&b.id, OpsAgentRole::User, "first", None).expect("append");
    store.append_message(&b.id, OpsAgentRole::Assistant, "second", None).expect("append");
    let act = store.create_pending_action(&a.id, Some("s"), "reboot", "r").expect("action");
    store.mark_action_rejected(&act.id).expect("reject");
    let written = store.snapshot();
    let index = OpsAgentConversationListData::from_data(&written);

    let mut files: Vec<OpsAgentConversation> = written.conversations.iter().map(|c| c.duplicate()).collect();
    files.reverse();
    let loaded = order_conversations_by_index(files, &index.conversations);
    assert_eq!(ids(&loaded), ids(&written.conversations));
    let b_loaded = loaded.iter().find(|c| c.id == b.id).expect("b");
    let contents: Vec<&str> = b_loaded.messages.iter().map(|m| m.content.as_str()).collect();
    assert_eq!(contents, vec!["first", "second"]);
    assert_eq!(index.pending_actions.len(), 1);
    assert_eq!(index.pending_actions[0].status, OpsAgentActionStatus::Rejected);
    assert_eq!(index.active_conversation_id, written.active_conversation_id);
}

#[test]
fn unlisted_conversations_follow_oldest_first() {
    let files = vec![conversation("x", "3"), conversation("y", "1"), conversation("z", "2")];
    let index = OpsAgentConversationListData::from_data(&OpsAgentData {
        conversations: vec![conversation("z", "2")],
        active_conversation_id: None,
        pending_actions: Vec::new(),
    });
    let loaded = order_conversations_by_index(files, &index.conversations);
    assert_eq!(ids(&loaded), vec!["z", "y", "x"]);
    let unordered = vec![conversation("x", "3"), conversation("y", "1")];
    assert_eq!(ids(&order_conversations_by_index(unordered, &[])), vec!["x", "y"]);
}

#[test]
fn normalize_sorts_and_repairs_active() {
    let mut data = OpsAgentData {
        conversations: vec![conversation("b", "2024-02"), conversation("a", "2024-01"), conversation("c", "2024-02")],
        active_conversation_id: Some("gone".to_string()),
        pending_actions: Vec::new(),
    };
    normalize_data(&mut data);
    assert_eq!(ids(&data.conversations), vec!["a", "b", "c"]);
    assert_eq!(data.active_conversation_id, Some("a".to_string()));
    let mut kept = OpsAgentData { active_conversation_id: Some("c".to_string()), ..data };
    normalize_data(&mut kept);
    assert_eq!(kept.active_conversation_id, Some("c".to_string()));
    let mut empty = OpsAgentData { conversations: Vec::new(), active_conversation_id: Some("c".to_string()), pending_actions: Vec::new() };
    normalize_data(&mut empty);
    assert_eq!(empty.active_conversation_id, None);
}

#[test]
fn file_names_and_entry_kinds() {
    assert_eq!(conversation_file_name("abc"), "abc.json");
    assert_eq!(stat_to_entry_type(Some(0o040755)), SftpEntryType::Directory);
    assert_eq!(stat_to_entry_type(Some(0o100644)), SftpEntryType::File);
    assert_eq!(stat_to_entry_type(Some(0o120777)), SftpEntryType::Symlink);
    assert_eq!(stat_to_entry_type(Some(0o010000)), SftpEntryType::Other);
    assert_eq!(stat_to_entry_type(None), SftpEntryType::Other);
    assert_eq!(download_file_name("/var/log/syslog"), "syslog");
    assert_eq!(download_file_name("/"), "download.bin");
}

#[test]
fn fresh_ids_are_uuid_shaped() {
    let mut store = OpsAgentStore::from_data(OpsAgentData {
        conversations: Vec::new(),
        active_conversation_id: None,
        pending_actions: Vec::new(),
    });
    let a = store.create_conversation(None, None);
    let b = store.create_conversation(None, None);
    assert_eq!(a.id.chars().count(), 36);
    assert_ne!(a.id, b.id);
    assert!(!a.created_at.is_empty());
}

fn raw(path: &str, perm: Option<u32>) -> RawDirEntry {
    RawDirEntry { path: path.to_string(), perm, size: Some(3), mtime: None }
}

#[test]
fn listing_puts_directories_first_then_names_case_insensitively() {
    let entries: Vec<SftpEntry> = [
        raw("/srv/B.txt", Some(0o100644)),
        raw("/srv/a.txt", Some(0o100644)),
        raw("/srv/.", Some(0o040755)),
        raw("/srv/..", Some(0o040755)),
        raw("/srv/zdir", Some(0o040755)),
    ]
    .iter()
    .filter_map(|r| entry_from_raw("/srv/", r))
    .collect();
    assert_eq!(entries.len(), 3);
    assert_eq!(entries[0].path, "/srv/B.txt");
    let sorted = sort_entries(entries);
    let names: Vec<&str> = sorted.iter().map(|e| e.name.as_str()).collect();
    assert_eq!(names, vec!["zdir", "a.txt", "B.txt"]);
    assert_eq!(sorted[0].entry_type, SftpEntryType::Directory);
    assert_eq!(sorted[1].size, 3);
}

#[test]
fn load_source_prefers_index_then_files_then_legacy() {
    assert_eq!(eshell_core::agent_files::load_source(true, 0), eshell_core::agent_files::LoadSource::Index);
    assert_eq!(eshell_core::agent_files::load_source(false, 2), eshell_core::agent_files::LoadSource::LooseFiles);
    assert_eq!(eshell_core::agent_files::load_source(false, 0), eshell_core::agent_files::LoadSource::Legacy);
}

#[test]
fn equal_creation_times_keep_their_order() {
    let mut data = OpsAgentData {
        conversations: vec![conversation("p", "2"), conversation("q", "1"), conversation("r", "2"), conversation("s", "1")],
        active_conversation_id: None,
        pending_actions: Vec::new(),
    };
    normalize_data(&mut data);
    assert_eq!(ids(&data.conversations), vec!["q", "s", "p", "r"]);
}
