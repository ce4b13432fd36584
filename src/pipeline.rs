use vstd::prelude::*;

use crate::classifier::{
    ParserState, StreamingInterceptor, TokenClass, ToolCall, DEFAULT_MAX_BUFFER, emitted_as,
    calls_match, concat, flush_view, lemma_run_conserves, run, step, tokens_match, tool_span_count,
};
use crate::json::{error_object, error_value, tool_call_fields, tool_call_params};

verus! {

/// How a streaming response is turned into display events.
pub enum StreamingMode {
    /// Classify fragments, forcing narrative out after `max_buffer_chars`.
    SmartBuffering { max_buffer_chars: usize },
    /// Forward every fragment unchanged as narrative.
    Passthrough,
    /// Classify fragments and show `placeholder_text` in place of tool calls.
    WithPlaceholders { placeholder_text: String },
}

/// Where and what to log about a streaming session.
pub struct InstrumentationConfig {
    pub log_path: Option<String>,
    pub log_token_classifications: bool,
    pub log_performance_metrics: bool,
}

/// Settings of a chat integration.
pub struct ChatIntegrationConfig {
    pub streaming_mode: StreamingMode,
    pub enhance_system_prompts: bool,
    pub max_tool_rounds: usize,
    pub instrumentation: InstrumentationConfig,
}

impl Default for ChatIntegrationConfig {
    fn default() -> (r: Self)
        ensures
            r.streaming_mode matches StreamingMode::SmartBuffering { max_buffer_chars }
                && max_buffer_chars == DEFAULT_MAX_BUFFER,
            r.enhance_system_prompts,
            r.max_tool_rounds == 3,
            r.instrumentation.log_path is None,
            !r.instrumentation.log_token_classifications,
            r.instrumentation.log_performance_metrics,
    {
        ChatIntegrationConfig {
            streaming_mode: StreamingMode::SmartBuffering { max_buffer_chars: DEFAULT_MAX_BUFFER },
            enhance_system_prompts: true,
            max_tool_rounds: 3,
            instrumentation: InstrumentationConfig {
                log_path: None,
                log_token_classifications: false,
                log_performance_metrics: true,
            },
        }
    }
}

/// An event of the display stream.
pub enum ProcessedToken {
    /// Text to show.
    Narrative(String),
    /// A hidden tool call.
    ToolCall(String),
    /// Text not yet classified.
    Buffered(String),
}

/// The kind of a display event.
#[derive(PartialEq, Eq, Structural, Clone, Copy, Debug)]
pub enum DisplayKind {
    Narrative,
    ToolCall,
    Buffered,
}

/// A tool call that was run against the backend, with its outcome.
pub struct ExecutedTool {
    pub tool_name: String,
    pub parameters: serde_json::Value,
    pub result: serde_json::Value,
    pub execution_time_ms: u64,
}

pub open spec fn token_view(p: ProcessedToken) -> (DisplayKind, Seq<char>) {
    match p {
        ProcessedToken::Narrative(s) => (DisplayKind::Narrative, s@),
        ProcessedToken::ToolCall(s) => (DisplayKind::ToolCall, s@),
        ProcessedToken::Buffered(s) => (DisplayKind::Buffered, s@),
    }
}

/// The buffer limit of the classifier that `mode` runs.
pub open spec fn mode_limit(mode: StreamingMode) -> nat {
    match mode {
        StreamingMode::SmartBuffering { max_buffer_chars } => max_buffer_chars as nat,
        _ => DEFAULT_MAX_BUFFER as nat,
    }
}

/// The display event for a classified span; `tool` says whether the span
/// was classified as a tool call.
pub open spec fn display_view(mode: StreamingMode, text: Seq<char>, tool: bool) -> (
    DisplayKind,
    Seq<char>,
) {
    if tool {
        match mode {
            StreamingMode::WithPlaceholders { placeholder_text } => (
                DisplayKind::Narrative,
                placeholder_text@,
            ),
            _ => (DisplayKind::ToolCall, text),
        }
    } else {
        (DisplayKind::Narrative, text)
    }
}

/// Every span a classifier run emits, the flush at the end included.
pub open spec fn classified_spans(max: nat, frags: Seq<Seq<char>>) -> Seq<(Seq<char>, bool)> {
    let r = run(max, frags);
    match flush_view(r.0, r.1) {
        Some(last) => r.2.push(last),
        None => r.2,
    }
}

/// The display stream of a pipeline in `mode` fed `frags`.
pub open spec fn pipeline_display(mode: StreamingMode, frags: Seq<Seq<char>>) -> Seq<
    (DisplayKind, Seq<char>),
> {
    match mode {
        StreamingMode::Passthrough => frags.map_values(|f: Seq<char>| (DisplayKind::Narrative, f)),
        _ => classified_spans(mode_limit(mode), frags).map_values(
            |sp: (Seq<char>, bool)| display_view(mode, sp.0, sp.1),
        ),
    }
}

/// The texts of the tool calls that a pipeline in `mode` fed `frags` hands
/// to the tool-execution stream.
pub open spec fn pipeline_tools(mode: StreamingMode, frags: Seq<Seq<char>>) -> Seq<Seq<char>> {
    match mode {
        StreamingMode::Passthrough => Seq::empty(),
        _ => run(mode_limit(mode), frags).3,
    }
}

pub open spec fn views_of(v: Seq<String>) -> Seq<Seq<char>> {
    v.map_values(|s: String| s@)
}

/// The display event for a classified span.
pub fn display_token(mode: &StreamingMode, class: &TokenClass) -> (r: ProcessedToken)
    ensures
        token_view(r) == match *class {
            TokenClass::Narrative(s) => (DisplayKind::Narrative, s@),
            TokenClass::ToolCall(s) => display_view(*mode, s@, true),
            TokenClass::Pending(s) => (DisplayKind::Buffered, s@),
        },
{
    match class {
        TokenClass::Narrative(text) => ProcessedToken::Narrative(text.clone()),
        TokenClass::ToolCall(json) => match mode {
            StreamingMode::WithPlaceholders { placeholder_text } => ProcessedToken::Narrative(
                placeholder_text.clone(),
            ),
            _ => ProcessedToken::ToolCall(json.clone()),
        },
        TokenClass::Pending(text) => ProcessedToken::Buffered(text.clone()),
    }
}

fn mode_max_buffer(mode: &StreamingMode) -> (r: usize)
    ensures
        r as nat == mode_limit(*mode),
{
    match mode {
        StreamingMode::SmartBuffering { max_buffer_chars } => *max_buffer_chars,
        _ => DEFAULT_MAX_BUFFER,
    }
}

/// Runs `frags` through the pipeline in `mode`: the display stream, and the
/// tool calls for the tool-execution stream, in order.
pub fn classify_fragments(mode: &StreamingMode, frags: &Vec<String>) -> (r: (
    Vec<ProcessedToken>,
    Vec<ToolCall>,
))
    ensures
        r.0@.map_values(|p: ProcessedToken| token_view(p)) == pipeline_display(
            *mode,
            views_of(frags@),
        ),
        calls_match(r.1@, pipeline_tools(*mode, views_of(frags@))),
{
    let ghost fv = views_of(frags@);
    let mut display: Vec<ProcessedToken> = Vec::new();
    let mut tools: Vec<ToolCall> = Vec::new();
    if let StreamingMode::Passthrough = mode {
        let mut i: usize = 0;
        while i < frags.len()
            invariant
                i <= frags@.len(),
                fv == views_of(frags@),
                tools@.len() == 0,
                display@.map_values(|p: ProcessedToken| token_view(p)) =~= fv.take(
                    i as int,
                ).map_values(|f: Seq<char>| (DisplayKind::Narrative, f)),
            decreases frags@.len() - i,
        {
            let ghost before = display@;
            display.push(ProcessedToken::Narrative(frags[i].clone()));
            assert(fv.take(i + 1) =~= fv.take(i as int).push(fv[i as int]));
            assert(display@.map_values(|p: ProcessedToken| token_view(p)) =~= before.map_values(
                |p: ProcessedToken| token_view(p),
            ).push(token_view(display@[i as int])));
            i = i + 1;
        }
        assert(fv.take(frags@.len() as int) =~= fv);
        return (display, tools);
    }
    let max = mode_max_buffer(mode);
    let mut interceptor = StreamingInterceptor::with_max_buffer_chars(max);
    let mut i: usize = 0;
    assert(fv.take(0) =~= Seq::<Seq<char>>::empty());
    while i < frags.len()
        invariant
            i <= frags@.len(),
            fv == views_of(frags@),
            !(*mode is Passthrough),
            interceptor.max_buffer() == mode_limit(*mode),
            interceptor.buffer_view() == run(mode_limit(*mode), fv.take(i as int)).0,
            interceptor.state_view() == run(mode_limit(*mode), fv.take(i as int)).1,
            display@.map_values(|p: ProcessedToken| token_view(p)) =~= run(
                mode_limit(*mode),
                fv.take(i as int),
            ).2.map_values(|sp: (Seq<char>, bool)| display_view(*mode, sp.0, sp.1)),
            calls_match(tools@, run(mode_limit(*mode), fv.take(i as int)).3),
        decreases frags@.len() - i,
    {
        let ghost m = mode_limit(*mode);
        let ghost pre = fv.take(i as int);
        let ghost next = fv.take(i + 1);
        let ghost r0 = run(m, pre);
        let ghost f = step(r0.0, r0.1, m, frags@[i as int]@);
        proof {
            assert(next.drop_last() =~= pre);
            assert(next.last() == frags@[i as int]@);
        }
        let mut out = interceptor.process_token(frags[i].as_str());
        let ghost d0 = display@;
        let mut j: usize = 0;
        while j < out.tokens.len()
            invariant
                j <= out.tokens@.len(),
                tokens_match(out.tokens@, f.2),
                display@.map_values(|p: ProcessedToken| token_view(p)) =~= d0.map_values(
                    |p: ProcessedToken| token_view(p),
                ) + f.2.take(j as int).map_values(
                    |sp: (Seq<char>, bool)| display_view(*mode, sp.0, sp.1),
                ),
            decreases out.tokens@.len() - j,
        {
            let ghost before = display@;
            let p = display_token(mode, &out.tokens[j]);
            display.push(p);
            proof {
                assert(emitted_as(Some(out.tokens@[j as int]), Some(f.2[j as int].0), f.2[j as int].1));
                assert(f.2.take(j + 1) =~= f.2.take(j as int).push(f.2[j as int]));
                assert(display@.map_values(|p: ProcessedToken| token_view(p)) =~= before.map_values(
                    |p: ProcessedToken| token_view(p),
                ).push(token_view(p)));
            }
            j = j + 1;
        }
        proof {
            assert(f.2.take(f.2.len() as int) =~= f.2);
            assert((r0.2 + f.2).map_values(|sp: (Seq<char>, bool)| display_view(*mode, sp.0, sp.1))
                =~= r0.2.map_values(|sp: (Seq<char>, bool)| display_view(*mode, sp.0, sp.1))
                + f.2.map_values(|sp: (Seq<char>, bool)| display_view(*mode, sp.0, sp.1)));
        }
        let ghost t0 = tools@;
        let ghost oc = out.tool_calls@;
        tools.append(&mut out.tool_calls);
        proof {
            assert forall|k: int| 0 <= k < tools@.len() implies (#[trigger] tools@[k]).tool@
                == tool_call_fields((r0.3 + f.3)[k])->0 && tools@[k].params == tool_call_params(
                (r0.3 + f.3)[k],
            ) by {
                if k < t0.len() {
                    assert(tools@[k] == t0[k]);
                } else {
                    assert(tools@[k] == oc[k - t0.len()]);
                }
            }
        }
        i = i + 1;
    }
    assert(fv.take(frags@.len() as int) =~= fv);
    let ghost before = display@;
    let last = interceptor.flush_buffer();
    match last {
        Some(class) => {
            let p = display_token(mode, &class);
            display.push(p);
            assert(display@.map_values(|p: ProcessedToken| token_view(p)) =~= before.map_values(
                |p: ProcessedToken| token_view(p),
            ).push(token_view(p)));
        },
        None => {},
    }
    (display, tools)
}

/// The record of a tool call that ran: the call's name and parameters, the
/// backend's result or `{"error": msg}` when it failed, and the time taken.
pub fn executed_tool(
    call: ToolCall,
    outcome: Result<serde_json::Value, String>,
    execution_time_ms: u64,
) -> (r: ExecutedTool)
    ensures
        records_call(r, call),
        r.tool_name@ == call.tool@,
        r.parameters == call.params,
        r.result == match outcome {
            Ok(v) => v,
            Err(msg) => error_object(msg@),
        },
        r.execution_time_ms == execution_time_ms,
{
    let result = match outcome {
        Ok(v) => v,
        Err(msg) => error_value(msg),
    };
    ExecutedTool { tool_name: call.tool, parameters: call.params, result, execution_time_ms }
}

proof fn lemma_run_tool_count(max: nat, frags: Seq<Seq<char>>)
    ensures
        run(max, frags).3.len() == tool_span_count(run(max, frags).2),
{
    lemma_run_conserves(max, frags);
}

/// In placeholder mode every span classified as a parsed tool call is shown
/// as the placeholder text, and the tool-execution stream still receives one
/// call for each such span.
pub proof fn lemma_placeholder_display(placeholder: String, frags: Seq<Seq<char>>)
    ensures
        ({
            let mode = StreamingMode::WithPlaceholders { placeholder_text: placeholder };
            let spans = run(DEFAULT_MAX_BUFFER as nat, frags).2;
            &&& forall|k: int|
                0 <= k < spans.len() && (#[trigger] spans[k]).1 ==> pipeline_display(
                    mode,
                    frags,
                )[k] == (DisplayKind::Narrative, placeholder@)
            &&& pipeline_tools(mode, frags) == run(DEFAULT_MAX_BUFFER as nat, frags).3
            &&& pipeline_tools(mode, frags).len() == tool_span_count(spans)
        }),
{
    lemma_run_tool_count(DEFAULT_MAX_BUFFER as nat, frags);
    let mode = StreamingMode::WithPlaceholders { placeholder_text: placeholder };
    let spans = run(DEFAULT_MAX_BUFFER as nat, frags).2;
    assert forall|k: int|
        0 <= k < spans.len() && (#[trigger] spans[k]).1 implies pipeline_display(
        mode,
        frags,
    )[k] == (DisplayKind::Narrative, placeholder@) by {
        assert(classified_spans(DEFAULT_MAX_BUFFER as nat, frags)[k] == spans[k]);
    }
}

/// In passthrough mode the display stream is the input, fragment for
/// fragment, all of it narrative, and no tool call is handed on.
pub proof fn lemma_passthrough_verbatim(frags: Seq<Seq<char>>)
    ensures
        pipeline_display(StreamingMode::Passthrough, frags).map_values(
            |d: (DisplayKind, Seq<char>)| d.1,
        ) == frags,
        concat(
            pipeline_display(StreamingMode::Passthrough, frags).map_values(
                |d: (DisplayKind, Seq<char>)| d.1,
            ),
        ) == concat(frags),
        forall|k: int|
            0 <= k < frags.len() ==> (#[trigger] pipeline_display(
                StreamingMode::Passthrough,
                frags,
            )[k]).0 == DisplayKind::Narrative,
        pipeline_tools(StreamingMode::Passthrough, frags).len() == 0,
{
    assert(pipeline_display(StreamingMode::Passthrough, frags).map_values(
        |d: (DisplayKind, Seq<char>)| d.1,
    ) =~= frags);
}

/// `e` records a run of `c`: same tool name and parameters.
pub open spec fn records_call(e: ExecutedTool, c: ToolCall) -> bool {
    e.tool_name@ == c.tool@ && e.parameters == c.params
}

/// In placeholder mode the tool-execution stream, built by running
/// `executed_tool` once per call handed on, in order, holds one record per
/// span classified as a parsed tool call, each with that call's name and
/// parameters.
pub proof fn lemma_placeholder_executions(
    placeholder: String,
    frags: Seq<Seq<char>>,
    calls: Seq<ToolCall>,
    execs: Seq<ExecutedTool>,
)
    requires
        calls_match(
            calls,
            pipeline_tools(StreamingMode::WithPlaceholders { placeholder_text: placeholder }, frags),
        ),
        execs.len() == calls.len(),
        forall|k: int| 0 <= k < execs.len() ==> records_call(#[trigger] execs[k], calls[k]),
    ensures
        execs.len() == tool_span_count(run(DEFAULT_MAX_BUFFER as nat, frags).2),
        forall|k: int|
            0 <= k < execs.len() ==> (#[trigger] execs[k]).tool_name@ == tool_call_fields(
                run(DEFAULT_MAX_BUFFER as nat, frags).3[k],
            )->0 && execs[k].parameters == tool_call_params(run(DEFAULT_MAX_BUFFER as nat, frags).3[k]),
{
    lemma_run_tool_count(DEFAULT_MAX_BUFFER as nat, frags);
    assert forall|k: int| 0 <= k < execs.len() implies (#[trigger] execs[k]).tool_name@
        == tool_call_fields(run(DEFAULT_MAX_BUFFER as nat, frags).3[k])->0 && execs[k].parameters
        == tool_call_params(run(DEFAULT_MAX_BUFFER as nat, frags).3[k]) by {
        assert(records_call(execs[k], calls[k]));
    }
}

} // verus!
