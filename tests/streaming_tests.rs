use mcp_host::classifier::{matches_tool_start, ParserState, StreamingInterceptor, TokenClass, ToolCall};
use mcp_host::pipeline::{classify_fragments, display_token, executed_tool, ProcessedToken, StreamingMode};
use mcp_host::scanner::calculate_brace_depth;

fn chars(s: &str) -> Vec<char> {
    s.chars().collect()
}

fn run_all(frags: &[&str]) -> (Vec<TokenClass>, Vec<ToolCall>) {
    let mut c = StreamingInterceptor::new();
    let mut tokens = Vec::new();
    let mut tools = Vec::new();
    for f in frags {
        let out = c.process_token(f);
        tokens.extend(out.tokens);
        tools.extend(out.tool_calls);
    }
    if let Some(t) = c.flush_buffer() {
        tokens.push(t);
    }
    (tokens, tools)
}

fn text_of(t: &TokenClass) -> &str {
    match t {
        TokenClass::Narrative(s) | TokenClass::ToolCall(s) | TokenClass::Pending(s) => s,
    }
}

const SAMPLE: &str = "He says hi.\n\n{\"tool\":\"list_files\",\"params\":{\"path\":\".\"}}\n\nDone.";

fn check_sample(frags: &[&str]) {
    let (tokens, tools) = run_all(frags);
    assert_eq!(tools.len(), 1);
    assert_eq!(tools[0].tool, "list_files");
    let expected: serde_json::Value = serde_json::from_str("{\"path\":\".\"}").unwrap();
    assert_eq!(tools[0].params, expected);
    let at: Vec<usize> = (0..tokens.len())
        .filter(|&i| matches!(tokens[i], TokenClass::ToolCall(_)))
        .collect();
    assert_eq!(at.len(), 1);
    assert_eq!(text_of(&tokens[at[0]]).trim(), "{\"tool\":\"list_files\",\"params\":{\"path\":\".\"}}");
    assert!(tokens
        .iter()
        .enumerate()
        .all(|(i, t)| i == at[0] || matches!(t, TokenClass::Narrative(_))));
    let before: String = tokens[..at[0]].iter().map(text_of).collect();
    let after: String = tokens[at[0] + 1..].iter().map(text_of).collect();
    assert_eq!(before.trim(), "He says hi.");
    assert_eq!(after.trim(), "Done.");
    let all: String = tokens.iter().map(text_of).collect();
    assert_eq!(all, SAMPLE);
}

#[test]
fn sample_split_per_char_yields_one_tool_call() {
    let pieces: Vec<String> = SAMPLE.chars().map(|c| c.to_string()).collect();
    let refs: Vec<&str> = pieces.iter().map(|s| s.as_str()).collect();
    check_sample(&refs);
}

#[test]
fn sample_split_at_lines_yields_one_tool_call() {
    check_sample(&[
        "He says hi.\n",
        "\n",
        "{\"tool\":",
        "\"list_files\",",
        "\"params\":{\"path\":\".\"}}",
        "\n\nDone.",
    ]);
}

#[test]
fn narrative_only_input_is_reproduced_exactly() {
    let frags = ["Hello ", "there. ", "This is ", "plain text\nwith lines", " and more"];
    let (tokens, tools) = run_all(&frags);
    assert!(tools.is_empty());
    assert!(tokens.iter().all(|t| matches!(t, TokenClass::Narrative(_))));
    let all: String = tokens.iter().map(text_of).collect();
    assert_eq!(all, frags.concat());
}

#[test]
fn buffer_stays_within_limit_plus_fragment() {
    let mut c = StreamingInterceptor::with_max_buffer_chars(10);
    let frags = ["abc", "defgh", "ijklmnop", "q", "rstuvwxyz0123"];
    for f in frags {
        let before = c.buffered_len();
        assert!(before <= 10);
        c.process_token(f);
        assert!(c.buffered_len() <= 10 + f.chars().count());
        assert_eq!(c.state(), ParserState::Narrative);
    }
}

#[test]
fn boundary_emits_narrative() {
    let mut c = StreamingInterceptor::new();
    let out = c.process_token("First sentence. ");
    assert_eq!(out.tokens.len(), 1);
    assert!(matches!(&out.tokens[0], TokenClass::Narrative(s) if s == "First sentence. "));
    let out = c.process_token("no boundary");
    assert!(out.tokens.is_empty());
    assert_eq!(c.buffered_len(), 11);
}

#[test]
fn false_alarm_brace_returns_to_narrative() {
    let mut c = StreamingInterceptor::new();
    assert!(c.process_token("{").tokens.is_empty());
    assert_eq!(c.state(), ParserState::InToolCall { brace_depth: 1 });
    assert!(c.process_token("x").tokens.is_empty());
    assert_eq!(c.state(), ParserState::InToolCall { brace_depth: 1 });
    let out = c.process_token("}");
    assert_eq!(out.tokens.len(), 1);
    assert!(matches!(&out.tokens[0], TokenClass::Narrative(s) if s == "{x}"));
    assert!(out.tool_calls.is_empty());
    assert_eq!(c.state(), ParserState::Narrative);
}

#[test]
fn unterminated_tool_call_is_flushed_as_tool_text() {
    let (tokens, tools) = run_all(&["{\"tool\": \"a\", ", "\"params\": {"]);
    assert!(tools.is_empty());
    assert_eq!(tokens.len(), 1);
    assert!(matches!(&tokens[0], TokenClass::ToolCall(s) if s == "{\"tool\": \"a\", \"params\": {"));
}

#[test]
fn unbalanced_close_in_maybe_state_gives_up_after_limit() {
    let mut c = StreamingInterceptor::new();
    assert!(c.process_token("[TOOL}").tokens.is_empty());
    assert_eq!(c.state(), ParserState::MaybeToolStart);
    let long = "x".repeat(50);
    let out = c.process_token(&long);
    assert_eq!(out.tokens.len(), 1);
    assert!(matches!(&out.tokens[0], TokenClass::Narrative(s) if s.chars().count() == 56));
    assert_eq!(c.state(), ParserState::Narrative);
    assert_eq!(c.buffered_len(), 0);
}

#[test]
fn brace_depth_ignores_quoted_braces() {
    assert_eq!(calculate_brace_depth(&chars("{\"a\": \"}{\"")), Some(1));
    assert_eq!(calculate_brace_depth(&chars("{\"a\\\"}\": 1}")), Some(0));
    assert_eq!(calculate_brace_depth(&chars("}")), None);
    assert_eq!(calculate_brace_depth(&chars("{{}")), Some(1));
    assert_eq!(calculate_brace_depth(&chars("")), Some(0));
}

#[test]
fn tool_start_heuristic() {
    assert!(matches_tool_start(&chars("text {\"tool\": 1")));
    assert!(matches_tool_start(&chars("x { ' tool ' :")));
    assert!(matches_tool_start(&chars("see [TOOL")));
    assert!(matches_tool_start(&chars("a <tool>")));
    assert!(matches_tool_start(&chars("  \n{")));
    assert!(!matches_tool_start(&chars("a {b}")));
    assert!(!matches_tool_start(&chars("tool: x")));
}

#[test]
fn example_stream_from_a_chat() {
    let frags = [
        "I'll ", "help ", "you ", "list ", "the ", "files.\n\n", "{\"tool", "\": \"list_files\", ",
        "\"params\": ", "{\"path\": \".\"", "}}", "\n\nLet me ", "check what's ", "there.",
    ];
    let (tokens, tools) = run_all(&frags);
    assert_eq!(tools.len(), 1);
    assert_eq!(tools[0].tool, "list_files");
    let all: String = tokens.iter().map(text_of).collect();
    assert_eq!(all, frags.concat());
}

fn strings(v: &[&str]) -> Vec<String> {
    v.iter().map(|s| s.to_string()).collect()
}

#[test]
fn passthrough_forwards_fragments_verbatim() {
    let frags = strings(&["a {\"tool\": \"x\", \"params\": {}}", " b", "\n"]);
    let (display, tools) = classify_fragments(&StreamingMode::Passthrough, &frags);
    assert!(tools.is_empty());
    assert_eq!(display.len(), 3);
    for (d, f) in display.iter().zip(frags.iter()) {
        assert!(matches!(d, ProcessedToken::Narrative(s) if s == f));
    }
}

#[test]
fn placeholder_mode_hides_tool_calls() {
    let frags = strings(&["Listing.\n", "{\"tool\": ", "\"list_files\", \"params\": {", "}}", "\nok"]);
    let mode = StreamingMode::WithPlaceholders { placeholder_text: "[running tool]".to_string() };
    let (display, tools) = classify_fragments(&mode, &frags);
    assert_eq!(tools.len(), 1);
    assert_eq!(tools[0].tool, "list_files");
    assert_eq!(display.len(), 3);
    assert!(matches!(&display[0], ProcessedToken::Narrative(s) if s == "Listing.\n"));
    assert!(matches!(&display[1], ProcessedToken::Narrative(s) if s == "[running tool]"));
    assert!(matches!(&display[2], ProcessedToken::Narrative(s) if s == "\nok"));
    let call = tools.into_iter().next().unwrap();
    let done = executed_tool(call, Ok(serde_json::Value::Bool(true)), 7);
    assert_eq!(done.tool_name, "list_files");
    assert_eq!(done.result, serde_json::Value::Bool(true));
    assert_eq!(done.execution_time_ms, 7);
}

#[test]
fn smart_buffering_marks_tool_calls() {
    let frags = strings(&["{\"tool\": ", "\"t\", \"params\": ", "{\"k\": 1}}"]);
    let mode = StreamingMode::SmartBuffering { max_buffer_chars: 200 };
    let (display, tools) = classify_fragments(&mode, &frags);
    assert_eq!(tools.len(), 1);
    assert_eq!(display.len(), 1);
    assert!(matches!(&display[0], ProcessedToken::ToolCall(s) if *s == frags.concat()));
}

#[test]
fn whole_object_in_one_fragment_is_a_tool_call() {
    let frags = strings(&["{\"tool\": \"t\", \"params\": {\"k\": 1}}"]);
    let mode = StreamingMode::SmartBuffering { max_buffer_chars: 200 };
    let (display, tools) = classify_fragments(&mode, &frags);
    assert_eq!(tools.len(), 1);
    let expected: serde_json::Value = serde_json::from_str("{\"k\": 1}").unwrap();
    assert_eq!(tools[0].params, expected);
    assert_eq!(display.len(), 1);
    assert!(matches!(&display[0], ProcessedToken::ToolCall(s) if s == &frags[0]));
}

#[test]
fn sample_as_one_fragment_yields_one_tool_call() {
    check_sample(&[SAMPLE]);
}

#[test]
fn sample_split_anywhere_yields_one_tool_call() {
    let chars: Vec<char> = SAMPLE.chars().collect();
    for cut in 0..=chars.len() {
        let a: String = chars[..cut].iter().collect();
        let b: String = chars[cut..].iter().collect();
        check_sample(&[a.as_str(), b.as_str()]);
    }
    check_sample(&["He says hi.\n\n{\"tool\":\"list_files\",\"params\":{\"path\":\".\"}}", "\n\nDone."]);
}

#[test]
fn smart_buffering_uses_its_limit() {
    let frags = strings(&["abcdef", "ghij"]);
    let mode = StreamingMode::SmartBuffering { max_buffer_chars: 5 };
    let (display, _) = classify_fragments(&mode, &frags);
    assert_eq!(display.len(), 2);
    assert!(matches!(&display[0], ProcessedToken::Narrative(s) if s == "abcdef"));
}

#[test]
fn failed_tool_records_error_object() {
    let call = ToolCall { tool: "t".to_string(), params: serde_json::Value::Null };
    let done = executed_tool(call, Err("boom".to_string()), 3);
    let expected: serde_json::Value = serde_json::from_str("{\"error\":\"boom\"}").unwrap();
    assert_eq!(done.result, expected);
    assert_eq!(done.parameters, serde_json::Value::Null);
}

#[test]
fn display_of_pending_is_buffered() {
    let p = display_token(&StreamingMode::Passthrough, &TokenClass::Pending("x".to_string()));
    assert!(matches!(p, ProcessedToken::Buffered(s) if s == "x"));
}

#[test]
fn empty_stream_emits_nothing() {
    let (tokens, tools) = run_all(&[]);
    assert!(tokens.is_empty() && tools.is_empty());
    let (tokens, tools) = run_all(&["", ""]);
    assert!(tokens.is_empty() && tools.is_empty());
    let (display, tools) = classify_fragments(&StreamingMode::Passthrough, &Vec::new());
    assert!(display.is_empty() && tools.is_empty());
}

#[test]
fn zero_limit_emits_every_fragment() {
    let mut c = StreamingInterceptor::with_max_buffer_chars(0);
    let out = c.process_token("ab");
    assert_eq!(out.tokens.len(), 1);
    assert!(matches!(&out.tokens[0], TokenClass::Narrative(s) if s == "ab"));
    assert_eq!(c.buffered_len(), 0);
}

#[test]
fn default_chat_config_buffers_smartly() {
    let c = mcp_host::pipeline::ChatIntegrationConfig::default();
    assert!(matches!(c.streaming_mode, StreamingMode::SmartBuffering { max_buffer_chars: 200 }));
    assert!(c.enhance_system_prompts);
    assert_eq!(c.max_tool_rounds, 3);
    assert!(c.instrumentation.log_path.is_none());
}

#[test]
fn a_fragment_is_classified_whole() {
    let mut c = StreamingInterceptor::new();
    let out = c.process_token("\n\n");
    assert_eq!(out.tokens.len(), 1);
    assert!(matches!(&out.tokens[0], TokenClass::Narrative(s) if s == "\n\n"));
    let out = c.process_token("One. Two.\nThree\n");
    assert_eq!(out.tokens.len(), 1);
    assert!(matches!(&out.tokens[0], TokenClass::Narrative(s) if s == "One. Two.\nThree\n"));
}

#[test]
fn closing_fragment_ends_the_tool_call_whole() {
    let mut c = StreamingInterceptor::new();
    c.process_token("{\"tool\":\"x\",\"params\":1");
    assert_eq!(c.state(), ParserState::InToolCall { brace_depth: 1 });
    let out = c.process_token("} ");
    assert_eq!(out.tool_calls.len(), 1);
    assert_eq!(out.tool_calls[0].tool, "x");
    assert_eq!(out.tokens.len(), 1);
    assert!(matches!(&out.tokens[0], TokenClass::ToolCall(s) if s == "{\"tool\":\"x\",\"params\":1} "));
    assert_eq!(c.buffered_len(), 0);
    assert_eq!(c.state(), ParserState::AfterToolCall);
}

#[test]
fn two_calls_in_one_fragment() {
    let (tokens, tools) =
        run_all(&["a {\"tool\": \"p\", \"params\": 1}\n{\"tool\": \"q\", \"params\": 2} b"]);
    let names: Vec<&str> = tools.iter().map(|t| t.tool.as_str()).collect();
    assert_eq!(names, vec!["p", "q"]);
    let all: String = tokens.iter().map(text_of).collect();
    assert_eq!(all, "a {\"tool\": \"p\", \"params\": 1}\n{\"tool\": \"q\", \"params\": 2} b");
}
