use mcp_host::classifier::ToolCall;
use mcp_host::conversation::{ConversationManager, Role, ToolResult};

#[test]
fn history_pairs_skip_system_messages() {
    let mut c = ConversationManager::new(1000);
    c.add_system_message("be nice");
    c.add_user_message("hello there");
    c.add_assistant_message("hi");
    let h = c.get_conversation_history();
    assert_eq!(
        h,
        vec![
            ("User".to_string(), "hello there".to_string()),
            ("Assistant".to_string(), "hi".to_string())
        ]
    );
    // "be nice" = 7 bytes -> 1, "hello there" = 11 -> 2, "hi" -> 0
    assert_eq!(c.current_tokens(), 3);
}

#[test]
fn trimming_drops_oldest_non_system_first() {
    let mut c = ConversationManager::new(4);
    c.add_system_message("system prompt"); // 3 tokens
    c.add_user_message("aaaa"); // 1
    assert_eq!(c.current_tokens(), 4);
    c.add_user_message("bbbbbbbb"); // 2 -> total 6, drops "aaaa" -> 5, then drops "bbbbbbbb" -> 3
    let recent = c.get_recent_messages(10);
    assert_eq!(recent.len(), 1);
    assert_eq!(recent[0].role, Role::System);
    assert_eq!(c.current_tokens(), 3);
}

#[test]
fn trimming_keeps_a_single_message() {
    let mut c = ConversationManager::new(1);
    c.add_user_message("a long message of many bytes");
    assert_eq!(c.get_recent_messages(5).len(), 1);
    assert_eq!(c.current_tokens(), 7);
}

#[test]
fn new_system_message_replaces_old_and_goes_first() {
    let mut c = ConversationManager::new(100);
    c.add_user_message("u1");
    c.add_system_message("first");
    c.add_system_message("second");
    let all = c.get_recent_messages(10);
    assert_eq!(all.len(), 2);
    assert_eq!(all[0].role, Role::System);
    assert_eq!(all[0].content, "second");
    assert_eq!(all[1].content, "u1");
}

#[test]
fn recent_messages_are_the_newest_in_order() {
    let mut c = ConversationManager::new(100);
    for m in ["one", "two", "three"] {
        c.add_user_message(m);
    }
    let r = c.get_recent_messages(2);
    let texts: Vec<&str> = r.iter().map(|m| m.content.as_str()).collect();
    assert_eq!(texts, vec!["two", "three"]);
}

#[test]
fn clear_keeps_system_messages() {
    let mut c = ConversationManager::new(100);
    c.add_system_message("sys sys sys!");
    c.add_user_message("question");
    c.clear();
    let all = c.get_recent_messages(10);
    assert_eq!(all.len(), 1);
    assert_eq!(all[0].content, "sys sys sys!");
    assert_eq!(c.current_tokens(), 3);
    assert!(c.get_conversation_history().is_empty());
}

#[test]
fn tool_history_lists_rounds_with_results() {
    let mut c = ConversationManager::new(100);
    c.add_user_message("list");
    let call = ToolCall { tool: "list_files".to_string(), params: serde_json::Value::Null };
    let result = ToolResult {
        tool_name: "list_files".to_string(),
        success: true,
        result: serde_json::Value::Bool(true),
    };
    c.add_assistant_message_with_tools("calling", vec![call], vec![result]);
    c.add_assistant_message("done");
    let rounds = c.get_tool_history();
    assert_eq!(rounds.len(), 1);
    assert_eq!(rounds[0].content, "calling");
    assert_eq!(rounds[0].tool_calls.as_ref().unwrap()[0].tool, "list_files");
    assert!(rounds[0].tool_results.as_ref().unwrap()[0].success);
}
