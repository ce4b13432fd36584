use mcp_host::instrumentation::{EventKind, EventRecord, LogAnalyzer, ToolStats};

fn tool(ts: u64, name: &str, success: bool, d: Option<u64>) -> EventRecord {
    EventRecord {
        timestamp_ms: ts,
        kind: EventKind::ToolExecutionComplete { tool_name: name.to_string(), success },
        duration_ms: d,
    }
}

#[test]
fn stats_group_by_tool_in_first_seen_order() {
    let events = vec![
        tool(1, "b", true, Some(30)),
        tool(2, "a", false, Some(5)),
        EventRecord { timestamp_ms: 3, kind: EventKind::Other, duration_ms: Some(9) },
        tool(4, "b", false, None),
        tool(5, "b", true, Some(50)),
    ];
    let stats = LogAnalyzer::new(events).tool_execution_stats();
    assert_eq!(stats.len(), 2);
    assert_eq!(stats[0].0, "b");
    assert_eq!(
        stats[0].1,
        ToolStats {
            total_calls: 3,
            successful_calls: 2,
            total_duration_ms: 80,
            max_duration_ms: 50,
            min_duration_ms: 0,
        }
    );
    assert_eq!(stats[1].0, "a");
    assert_eq!(stats[1].1.total_calls, 1);
    assert_eq!(stats[1].1.successful_calls, 0);
    assert_eq!(stats[1].1.total_duration_ms, 5);
}

#[test]
fn durations_saturate() {
    let events = vec![tool(1, "x", true, Some(u64::MAX)), tool(2, "x", true, Some(10))];
    let stats = LogAnalyzer::new(events).tool_execution_stats();
    assert_eq!(stats[0].1.total_duration_ms, u64::MAX);
    assert_eq!(stats[0].1.max_duration_ms, u64::MAX);
}

#[test]
fn timeline_lists_timed_events() {
    let events = vec![
        tool(1, "x", true, Some(12)),
        EventRecord { timestamp_ms: 2, kind: EventKind::PromptEnhancementComplete, duration_ms: Some(3) },
        EventRecord { timestamp_ms: 3, kind: EventKind::Other, duration_ms: None },
        EventRecord { timestamp_ms: 4, kind: EventKind::Other, duration_ms: Some(1) },
    ];
    let t = LogAnalyzer::new(events).performance_timeline();
    assert_eq!(
        t,
        vec![
            (1, "Tool: x".to_string(), 12),
            (2, "Prompt Enhancement".to_string(), 3),
            (4, "Other".to_string(), 1)
        ]
    );
    assert_eq!(ToolStats::default().total_calls, 0);
}
