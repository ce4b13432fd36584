use mcp_host::host::{
    strip_think, validate_round, McpHostConfig, RetryContext, RetryStrategy, RoundDecision,
    BASE_TEMPERATURE, MAX_TOOL_ROUNDS,
};
use mcp_host::prompts::{find_tool_objects, parse_json_tool_calls, PromptTemplate};

#[test]
fn temperature_anneals_per_attempt() {
    let s = RetryStrategy::new(3, 500, 100);
    let temps: Vec<u32> = (0..5).map(|a| s.calculate_temperature(BASE_TEMPERATURE, a)).collect();
    assert_eq!(temps, vec![700, 600, 500, 400, 300]);
    assert_eq!(s.calculate_temperature(700, 7), 0);
    assert_eq!(s.calculate_temperature(700, 100), 0);
    assert_eq!(RetryStrategy::new(3, 0, 0).calculate_temperature(700, 3), 700);
    assert_eq!(s.calculate_temperature(700, u32::MAX), 0);
}

#[test]
fn retries_stop_after_max() {
    let s = RetryStrategy::new(2, 10, 100);
    assert_eq!(s.after_failure(0), Some(1));
    assert_eq!(s.after_failure(1), Some(2));
    assert_eq!(s.after_failure(2), None);
}

#[test]
fn retry_prompt_lists_errors() {
    let mut ctx = RetryContext::new(0, 700);
    assert_eq!(ctx.build_retry_prompt("P"), "P");
    ctx.add_error("bad json".to_string());
    ctx.add_error("too many".to_string());
    let expected = "P\n\nIMPORTANT: Previous attempts failed with these errors:\nAttempt 1: bad json\nAttempt 2: too many\n\nPlease correct these issues in your response. Ensure:\n1. Tool calls use valid JSON format\n2. Parameter names match the schema exactly\n3. Required parameters are not missing\n";
    assert_eq!(ctx.build_retry_prompt("P"), expected);
}

#[test]
fn strip_think_removes_first_block() {
    assert_eq!(strip_think("<think>hmm</think>  Answer "), "Answer");
    assert_eq!(strip_think("A <think>x</think> B"), "A  B");
    assert_eq!(strip_think("no tags "), "no tags ");
    assert_eq!(strip_think("<think> only open"), "<think> only open");
}

fn calls_text(n: usize) -> String {
    (0..n)
        .map(|i| format!("{{\"tool\": \"t{}\", \"params\": \"p\"}}", i))
        .collect::<Vec<_>>()
        .join("\n")
}

#[test]
fn too_many_tool_calls_fail_without_execution() {
    let max = McpHostConfig::default().safety_constraints.max_tools_per_request;
    let d = validate_round(0, &calls_text(max + 1), max);
    assert!(matches!(d, RoundDecision::TooManyTools { count, max: m } if count == max + 1 && m == max));
    assert_eq!(
        d.error_message().unwrap(),
        format!("Too many tool calls ({}) - max allowed: {}", max + 1, max)
    );
}

#[test]
fn allowed_tool_calls_are_executed_in_order() {
    let d = validate_round(0, &calls_text(3), 5);
    match d {
        RoundDecision::ExecuteTools { calls, .. } => {
            let names: Vec<&str> = calls.iter().map(|c| c.tool.as_str()).collect();
            assert_eq!(names, vec!["t0", "t1", "t2"]);
        }
        _ => panic!("expected tool execution"),
    }
}

#[test]
fn plain_answer_finishes_the_turn() {
    let d = validate_round(2, "<think>plan</think>The answer is 4.", 5);
    assert!(matches!(d, RoundDecision::Finish(ref t) if t == "The answer is 4."));
    assert!(d.error_message().is_none());
}

#[test]
fn rounds_are_bounded() {
    let d = validate_round(MAX_TOOL_ROUNDS, "anything", 5);
    assert!(matches!(d, RoundDecision::RoundsExceeded));
    assert_eq!(d.error_message().unwrap(), "Tool execution loop exceeded maximum rounds");
}

#[test]
fn extraction_skips_nested_and_unparseable_objects() {
    let text = "a {\"tool\": \"x\", \"params\": {\"p\": 1}} b {\"tool\": \"y\", \"params\": 2} {\"tool\": bad}";
    let calls = parse_json_tool_calls(text);
    assert_eq!(calls.len(), 1);
    assert_eq!(calls[0].tool, "y");
    let spans = find_tool_objects(&text.chars().collect());
    assert_eq!(spans.len(), 2);
}

#[test]
fn templates_by_model() {
    let t = PromptTemplate::new("llama3.1:8b");
    assert_eq!(*t.system_prompt(), PromptTemplate::llama_system_prompt());
    assert!(t.tool_usage_instructions().starts_with("\nYou have access to tools."));
    let t = PromptTemplate::new("mistral:7b-instruct");
    assert_eq!(*t.system_prompt(), PromptTemplate::mistral_system_prompt());
    assert!(t.tool_usage_instructions().contains("EXACTLY this JSON"));
    let t = PromptTemplate::new("other");
    assert_eq!(*t.system_prompt(), PromptTemplate::generic_system_prompt());
    let v = t.validate_response("{\"tool\": \"z\", \"params\": [1]}");
    assert!(v.is_valid && v.has_tool_calls);
    assert_eq!(v.tool_calls[0].tool, "z");
    let v = t.validate_response("");
    assert!(!v.is_valid && !v.has_tool_calls);
}

fn described(name: &str) -> mcp_host::prompts::ToolDescription {
    mcp_host::prompts::ToolDescription {
        name: name.to_string(),
        description: "does things".to_string(),
        schema: "{}".to_string(),
    }
}

#[test]
fn turn_prompt_lists_tools_history_and_message() {
    let t = PromptTemplate::new("llama3.1:8b");
    let history = vec![("User".to_string(), "hi".to_string())];
    let p = t.format_with_tools(&vec![described("ls")], &history, "list files");
    let expected = format!(
        "{}\n\nAvailable tools:\n- ls: does things\n  Parameters: {{}}\n{}\n\nConversation history:\nUser: hi\n\nUser: list files\nAssistant: ",
        PromptTemplate::llama_system_prompt(),
        t.tool_usage_instructions()
    );
    assert_eq!(p, expected);
    let p = t.format_with_tools(&vec![], &vec![], "x");
    assert!(!p.contains("Conversation history"));
}

#[test]
fn system_prompt_enhancement() {
    assert_eq!(mcp_host::prompts::enhance_system_prompt("base", false, &vec![described("ls")]), "base");
    assert_eq!(mcp_host::prompts::enhance_system_prompt("base", true, &vec![]), "base");
    let e = mcp_host::prompts::enhance_system_prompt("base", true, &vec![described("ls")]);
    assert!(e.starts_with("base\n\n## Available Tools\n\n\nWhen you need to use a tool:"));
    assert!(e.ends_with("\n\nYour available tools are:\n- `ls`: does things\n  Parameters: {}\n"));
}

#[test]
fn tool_results_prompt_holds_every_result() {
    let p = mcp_host::prompts::format_tool_results_prompt(
        &vec![described("ls")],
        "checking",
        &vec![("ls".to_string(), "[1]".to_string()), ("cat".to_string(), "\"x\"".to_string())],
        "what is here?",
    );
    assert_eq!(
        p,
        "\n\nAvailable tools:\n- ls: does things\n  Parameters: {}\n\nYour previous response:\nchecking\n\nTool results:\n- ls: [1]\n- cat: \"x\"\n\nUsing these results, answer the user's request.\nUser: what is here?\nAssistant: "
    );
}

#[test]
fn failure_summary_numbers_errors() {
    let mut ctx = RetryContext::new(0, 700);
    assert_eq!(ctx.failure_summary(), "");
    ctx.add_error("a".to_string());
    ctx.add_error("b".to_string());
    assert_eq!(ctx.failure_summary(), "Attempt 1: a\nAttempt 2: b\n");
}

#[test]
fn unicode_whitespace_is_trimmed() {
    assert_eq!(strip_think("<think>x</think>\u{3000}\u{a0}ok\u{2028}"), "ok");
}

#[test]
fn extracted_calls_keep_their_params() {
    let calls = parse_json_tool_calls("{\"tool\": \"a\", \"params\": [1, 2]}");
    let expected: serde_json::Value = serde_json::from_str("[1, 2]").unwrap();
    assert_eq!(calls[0].params, expected);
}

#[test]
fn backoff_doubles_with_bounded_jitter() {
    let s = RetryStrategy::new(3, 100, 100);
    assert_eq!(s.calculate_delay(0, 0), 100);
    assert_eq!(s.calculate_delay(3, 0), 800);
    assert_eq!(s.calculate_delay(3, 999), 800 + 800 * 3 * 999 / 10000);
    assert_eq!(s.calculate_delay(70, 500), u64::MAX);
}

#[test]
fn rounds_accumulate_results() {
    let mut r = mcp_host::host::RoundState::new();
    let call = mcp_host::classifier::ToolCall { tool: "a".to_string(), params: serde_json::Value::Null };
    let done = mcp_host::pipeline::executed_tool(call, Ok(serde_json::Value::from(3)), 1);
    r.record_round(&vec![done]);
    let call = mcp_host::classifier::ToolCall { tool: "b".to_string(), params: serde_json::Value::Null };
    let done = mcp_host::pipeline::executed_tool(call, Err("x".to_string()), 1);
    r.record_round(&vec![done]);
    assert_eq!(r.rounds_done, 2);
    assert_eq!(
        r.results,
        vec![("a".to_string(), "3".to_string()), ("b".to_string(), "{\"error\":\"x\"}".to_string())]
    );
}

#[test]
fn prompt_uses_history_without_its_last_entry() {
    let mut c = mcp_host::conversation::ConversationManager::new(1000);
    c.add_user_message("first");
    c.add_assistant_message("reply");
    c.add_user_message("second");
    let t = PromptTemplate::new("other");
    let tool = mcp_host::host::describe_tool(
        "ls".to_string(),
        "lists".to_string(),
        &serde_json::from_str("{\"a\":1}").unwrap(),
        false,
    );
    assert_eq!(tool.schema, "{\"a\":1}");
    let p = mcp_host::host::build_prompt(&t, &c, &vec![tool]);
    assert!(p.ends_with("Conversation history:\nUser: first\nAssistant: reply\n\nUser: second\nAssistant: "));
}
