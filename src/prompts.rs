use vstd::prelude::*;
use vstd::string::*;

use crate::classifier::{ToolCall, calls_match};
use crate::json::{parse_tool_call, string_from_chars, tool_call_fields, tool_call_params};
use crate::text::{chars_of, push_text, same_text, slice_chars};

verus! {

/// How a model family is asked to call tools.
pub enum ToolFormat {
    JsonOnly,
    NativeTools,
    Custom(String),
}

/// The system prompt and tool format for one model family.
pub struct PromptTemplate {
    system_prompt: String,
    tool_format: ToolFormat,
}

/// A tool as a prompt describes it: its name, its description and its
/// parameter schema as JSON text.
pub struct ToolDescription {
    pub name: String,
    pub description: String,
    pub schema: String,
}

/// The tool calls found in a complete response.
pub struct ValidationResult {
    pub is_valid: bool,
    pub has_tool_calls: bool,
    pub tool_calls: Vec<ToolCall>,
    pub errors: Vec<String>,
}

pub open spec fn generic_prompt_text() -> Seq<char> {
    "You are a helpful AI assistant with access to tools. Use the available tools to help answer user questions and complete tasks. Always validate your tool parameters match the schema before calling."@
}

pub open spec fn llama_prompt_text() -> Seq<char> {
    "You are a helpful AI assistant. You have access to a set of tools to help answer questions and complete tasks. When you need to use a tool, make sure to validate the parameters match the required schema."@
}

pub open spec fn mistral_prompt_text() -> Seq<char> {
    "You are a helpful AI assistant with tool access. When using tools, output valid JSON following the specified format. Think step by step and use tools when they would help provide better answers."@
}

pub open spec fn json_instructions_text() -> Seq<char> {
    "\nTo use a tool, output EXACTLY this JSON format on its own line:\n{\"tool\": \"tool_name\", \"params\": {\"param1\": \"value1\"}}\n\nImportant:\n- Output the JSON on its own line\n- Ensure the JSON is valid\n- Use the exact parameter names from the tool schema\n- You can use multiple tools in one response"@
}

pub open spec fn native_instructions_text() -> Seq<char> {
    "\nYou have access to tools. Use them when needed to help answer the user's request."@
}

pub open spec fn is_llama(model: Seq<char>) -> bool {
    model == "llama3.1:70b"@ || model == "llama3.1:8b"@
}

pub open spec fn is_mistral(model: Seq<char>) -> bool {
    model == "mistral:7b-instruct"@
}

// ---------------------------------------------------------------------------
// Extraction of tool-call objects from a complete response.

pub open spec fn is_brace(c: char) -> bool {
    c == '{' || c == '}'
}

/// First index at or after `j` that holds a brace, or the length.
pub open spec fn next_brace(s: Seq<char>, j: int) -> int
    decreases s.len() - j,
{
    if j < 0 || j >= s.len() {
        j
    } else if is_brace(s[j]) {
        j
    } else {
        next_brace(s, j + 1)
    }
}

/// The key `"tool"`, quotes included.
pub open spec fn tool_key() -> Seq<char> {
    seq!['"', 't', 'o', 'o', 'l', '"']
}

/// `"tool"` (with its quotes) occurs within `s[a..b]`.
pub open spec fn holds_tool_key(s: Seq<char>, a: int, b: int) -> bool {
    exists|k: int|
        a <= k && k + 6 <= b && #[trigger] s.subrange(k, k + 6) == tool_key()
}

/// The brace-free objects holding a `"tool"` key, found left to right from
/// `i` without overlap, as start and end indices.
pub open spec fn tool_objects_from(s: Seq<char>, i: int) -> Seq<(int, int)>
    decreases s.len() - i,
{
    if i < 0 || i >= s.len() {
        Seq::empty()
    } else if s[i] == '{' && next_brace(s, i + 1) < s.len() && s[next_brace(s, i + 1)] == '}'
        && holds_tool_key(s, i + 1, next_brace(s, i + 1)) {
        seq![(i, next_brace(s, i + 1) + 1)] + tool_objects_from(s, next_brace(s, i + 1) + 1)
    } else {
        tool_objects_from(s, i + 1)
    }
}

/// The texts of the objects of `spans` that parse as tool calls.
pub open spec fn parsed_objects(s: Seq<char>, spans: Seq<(int, int)>) -> Seq<Seq<char>>
    decreases spans.len(),
{
    if spans.len() == 0 {
        Seq::empty()
    } else {
        let rest = parsed_objects(s, spans.drop_last());
        let text = s.subrange(spans.last().0, spans.last().1);
        if tool_call_fields(text) is Some {
            rest.push(text)
        } else {
            rest
        }
    }
}

/// The texts of the tool-call objects in the response `s`, in order.
pub open spec fn extracted_tool_objects(s: Seq<char>) -> Seq<Seq<char>> {
    parsed_objects(s, tool_objects_from(s, 0))
}

fn exec_next_brace(s: &Vec<char>, j: usize) -> (r: usize)
    requires
        j <= s@.len(),
    ensures
        r as int == next_brace(s@, j as int),
        j <= r <= s@.len(),
{
    let mut k = j;
    while k < s.len() && !(s[k] == '{' || s[k] == '}')
        invariant
            j <= k <= s@.len(),
            next_brace(s@, k as int) == next_brace(s@, j as int),
        decreases s@.len() - k,
    {
        k = k + 1;
    }
    k
}

fn exec_holds_tool_key(s: &Vec<char>, a: usize, b: usize) -> (r: bool)
    requires
        a <= b <= s@.len(),
    ensures
        r == holds_tool_key(s@, a as int, b as int),
{
    let key = vec!['"', 't', 'o', 'o', 'l', '"'];
    assert(key@ =~= tool_key());
    let mut k = a;
    while k < b && b - k >= 6
        invariant
            a <= k,
            b <= s@.len(),
            key@ == tool_key(),
            forall|t: int| a <= t < k ==> #[trigger] s@.subrange(t, t + 6) != tool_key(),
        decreases b - k,
    {
        let mut m: usize = 0;
        let mut same = true;
        while m < 6
            invariant
                m <= 6,
                k + 6 <= b <= s@.len(),
                key@.len() == 6,
                same <==> forall|t: int| 0 <= t < m ==> s@[k + t] == key@[t],
            decreases 6 - m,
        {
            if s[k + m] != key[m] {
                same = false;
            }
            m = m + 1;
        }
        if same {
            assert(s@.subrange(k as int, k + 6) =~= key@);
            return true;
        }
        proof {
            assert(exists|t: int| 0 <= t < 6 && s@[k + t] != key@[t]);
            let t = choose|t: int| 0 <= t < 6 && s@[k + t] != key@[t];
            assert(s@.subrange(k as int, k + 6)[t] != key@[t]);
        }
        k = k + 1;
    }
    false
}

/// The brace-free `{...}` objects of `s` that hold a `"tool"` key, left to
/// right and without overlap, as start and end indices.
pub fn find_tool_objects(s: &Vec<char>) -> (r: Vec<(usize, usize)>)
    ensures
        r@.map_values(|p: (usize, usize)| (p.0 as int, p.1 as int)) == tool_objects_from(s@, 0),
        forall|k: int| 0 <= k < r@.len() ==> (#[trigger] r@[k]).0 <= r@[k].1 <= s@.len(),
{
    let mut out: Vec<(usize, usize)> = Vec::new();
    let mut i: usize = 0;
    let n = s.len();
    while i < n
        invariant
            n == s@.len(),
            i <= n,
            out@.map_values(|p: (usize, usize)| (p.0 as int, p.1 as int)) + tool_objects_from(
                s@,
                i as int,
            ) == tool_objects_from(s@, 0),
            forall|k: int| 0 <= k < out@.len() ==> (#[trigger] out@[k]).0 <= out@[k].1 <= n,
        decreases n - i,
    {
        let ghost before = out@;
        if s[i] == '{' {
            let e = exec_next_brace(s, i + 1);
            if e < n && s[e] == '}' && exec_holds_tool_key(s, i + 1, e) {
                out.push((i, e + 1));
                assert(out@.map_values(|p: (usize, usize)| (p.0 as int, p.1 as int)) =~= before.map_values(
                    |p: (usize, usize)| (p.0 as int, p.1 as int),
                ).push((i as int, e + 1)));
                assert(tool_objects_from(s@, i as int) == seq![(i as int, e + 1)]
                    + tool_objects_from(s@, e + 1));
                i = e + 1;
            } else {
                i = i + 1;
            }
        } else {
            i = i + 1;
        }
    }
    proof {
        assert(tool_objects_from(s@, n as int) == Seq::<(int, int)>::empty());
        assert(out@.map_values(|p: (usize, usize)| (p.0 as int, p.1 as int)) + Seq::<(int, int)>::empty()
            =~= out@.map_values(|p: (usize, usize)| (p.0 as int, p.1 as int)));
    }
    out
}

impl PromptTemplate {
    pub closed spec fn system_prompt_view(&self) -> Seq<char> {
        self.system_prompt@
    }

    pub closed spec fn is_json_only(&self) -> bool {
        self.tool_format is JsonOnly
    }

    pub closed spec fn is_native(&self) -> bool {
        self.tool_format is NativeTools
    }

    /// The text of `tool_usage_instructions`.
    pub closed spec fn instructions_view(&self) -> Seq<char> {
        match self.tool_format {
            ToolFormat::JsonOnly => json_instructions_text(),
            ToolFormat::NativeTools => native_instructions_text(),
            ToolFormat::Custom(t) => t@,
        }
    }

    pub closed spec fn custom_instructions(&self) -> Option<Seq<char>> {
        match self.tool_format {
            ToolFormat::Custom(t) => Some(t@),
            _ => None,
        }
    }

    /// The template for `model_name`: the llama prompt with native tools
    /// for the llama3.1 models, the mistral prompt with JSON-only tools for
    /// mistral:7b-instruct, the generic prompt with JSON-only tools for any
    /// other model.
    pub fn new(model_name: &str) -> (r: Self)
        ensures
            is_llama(model_name@) ==> r.system_prompt_view() == llama_prompt_text() && r.is_native(),
            is_mistral(model_name@) ==> r.system_prompt_view() == mistral_prompt_text()
                && r.is_json_only(),
            !is_llama(model_name@) && !is_mistral(model_name@) ==> r.system_prompt_view()
                == generic_prompt_text() && r.is_json_only(),
    {
        proof {
            reveal_strlit("llama3.1:70b");
            reveal_strlit("llama3.1:8b");
            reveal_strlit("mistral:7b-instruct");
            assert("mistral:7b-instruct"@[0] != "llama3.1:70b"@[0]);
            assert("mistral:7b-instruct"@[0] != "llama3.1:8b"@[0]);
        }
        if same_text(model_name, "llama3.1:70b") || same_text(model_name, "llama3.1:8b") {
            PromptTemplate { system_prompt: Self::llama_system_prompt(), tool_format: ToolFormat::NativeTools }
        } else if same_text(model_name, "mistral:7b-instruct") {
            PromptTemplate { system_prompt: Self::mistral_system_prompt(), tool_format: ToolFormat::JsonOnly }
        } else {
            PromptTemplate { system_prompt: Self::generic_system_prompt(), tool_format: ToolFormat::JsonOnly }
        }
    }

    /// The system prompt of this template.
    pub fn system_prompt(&self) -> (r: &String)
        ensures
            r@ == self.system_prompt_view(),
    {
        &self.system_prompt
    }

    /// The instructions on how to call a tool, by tool format.
    pub fn tool_usage_instructions(&self) -> (r: String)
        ensures
            self.is_json_only() ==> r@ == json_instructions_text(),
            self.is_native() ==> r@ == native_instructions_text(),
            self.custom_instructions() is Some ==> r@ == self.custom_instructions()->0,
            r@ == self.instructions_view(),
    {
        match &self.tool_format {
            ToolFormat::JsonOnly => String::from_str(
                "\nTo use a tool, output EXACTLY this JSON format on its own line:\n{\"tool\": \"tool_name\", \"params\": {\"param1\": \"value1\"}}\n\nImportant:\n- Output the JSON on its own line\n- Ensure the JSON is valid\n- Use the exact parameter names from the tool schema\n- You can use multiple tools in one response",
            ),
            ToolFormat::NativeTools => String::from_str(
                "\nYou have access to tools. Use them when needed to help answer the user's request.",
            ),
            ToolFormat::Custom(instructions) => instructions.clone(),
        }
    }

    pub fn generic_system_prompt() -> (r: String)
        ensures
            r@ == generic_prompt_text(),
    {
        String::from_str(
            "You are a helpful AI assistant with access to tools. Use the available tools to help answer user questions and complete tasks. Always validate your tool parameters match the schema before calling.",
        )
    }

    pub fn llama_system_prompt() -> (r: String)
        ensures
            r@ == llama_prompt_text(),
    {
        String::from_str(
            "You are a helpful AI assistant. You have access to a set of tools to help answer questions and complete tasks. When you need to use a tool, make sure to validate the parameters match the required schema.",
        )
    }

    pub fn mistral_system_prompt() -> (r: String)
        ensures
            r@ == mistral_prompt_text(),
    {
        String::from_str(
            "You are a helpful AI assistant with tool access. When using tools, output valid JSON following the specified format. Think step by step and use tools when they would help provide better answers.",
        )
    }

    /// The tool calls in a complete response: each brace-free `{...}` object
    /// holding a `"tool"` key, left to right, that parses as a tool call.
    /// Objects that do not parse are skipped.
    pub fn parse_tool_calls(&self, response: &str) -> (r: Vec<ToolCall>)
        requires
            self.custom_instructions() is None,
        ensures
            calls_match(r@, extracted_tool_objects(response@)),
    {
        parse_json_tool_calls(response)
    }

    /// Checks a complete response for tool calls.
    pub fn validate_response(&self, response: &str) -> (r: ValidationResult)
        requires
            self.custom_instructions() is None,
        ensures
            r.is_valid == (response@.len() > 0),
            r.has_tool_calls == (extracted_tool_objects(response@).len() > 0),
            calls_match(r.tool_calls@, extracted_tool_objects(response@)),
            r.errors@.len() == 0,
    {
        let tool_calls = self.parse_tool_calls(response);
        ValidationResult {
            is_valid: response.unicode_len() > 0,
            has_tool_calls: tool_calls.len() > 0,
            tool_calls,
            errors: Vec::new(),
        }
    }
}

/// The tool calls in a complete response, as `PromptTemplate::parse_tool_calls`
/// finds them.
pub fn parse_json_tool_calls(response: &str) -> (r: Vec<ToolCall>)
    ensures
        calls_match(r@, extracted_tool_objects(response@)),
{
    let s = chars_of(response);
    let spans = find_tool_objects(&s);
    let ghost sv = spans@.map_values(|p: (usize, usize)| (p.0 as int, p.1 as int));
    let mut calls: Vec<ToolCall> = Vec::new();
    let mut i: usize = 0;
    while i < spans.len()
        invariant
            i <= spans@.len(),
            s@ == response@,
            sv == spans@.map_values(|p: (usize, usize)| (p.0 as int, p.1 as int)),
            sv == tool_objects_from(s@, 0),
            forall|k: int| 0 <= k < spans@.len() ==> (#[trigger] spans@[k]).0 <= spans@[k].1 <= s@.len(),
            calls_match(calls@, parsed_objects(s@, sv.take(i as int))),
        decreases spans@.len() - i,
    {
        let (a, b) = spans[i];
        let piece = string_from_chars(&slice_chars(&s, a, b));
        proof {
            assert(sv.take(i + 1).drop_last() =~= sv.take(i as int));
            assert(sv.take(i + 1).last() == (a as int, b as int));
        }
        match parse_tool_call(piece.as_str()) {
            Some((tool, params)) => {
                calls.push(ToolCall { tool, params });
            },
            None => {},
        }
        i = i + 1;
    }
    assert(sv.take(spans@.len() as int) =~= sv);
    calls
}

// ---------------------------------------------------------------------------
// Prompt text.

/// One line per tool: `a`, name, `b`, description, `c`, schema, `d`.
pub open spec fn tool_lines(
    tools: Seq<ToolDescription>,
    a: Seq<char>,
    b: Seq<char>,
    c: Seq<char>,
    d: Seq<char>,
) -> Seq<char>
    decreases tools.len(),
{
    if tools.len() == 0 {
        Seq::empty()
    } else {
        let t = tools.last();
        tool_lines(tools.drop_last(), a, b, c, d) + a + t.name@ + b + t.description@ + c
            + t.schema@ + d
    }
}

/// One line per pair: `a`, first, `b`, second, `c`.
pub open spec fn pair_lines(pairs: Seq<(Seq<char>, Seq<char>)>, a: Seq<char>, b: Seq<char>, c: Seq<char>) -> Seq<char>
    decreases pairs.len(),
{
    if pairs.len() == 0 {
        Seq::empty()
    } else {
        pair_lines(pairs.drop_last(), a, b, c) + a + pairs.last().0 + b + pairs.last().1 + c
    }
}

/// The texts of a list of string pairs.
pub open spec fn pairs_view(v: Seq<(String, String)>) -> Seq<(Seq<char>, Seq<char>)> {
    v.map_values(|p: (String, String)| (p.0@, p.1@))
}

fn push_tool_lines(out: &mut Vec<char>, tools: &Vec<ToolDescription>, a: &str, b: &str, c: &str, d: &str)
    ensures
        final(out)@ == old(out)@ + tool_lines(tools@, a@, b@, c@, d@),
{
    let mut i: usize = 0;
    while i < tools.len()
        invariant
            i <= tools@.len(),
            out@ == old(out)@ + tool_lines(tools@.take(i as int), a@, b@, c@, d@),
        decreases tools@.len() - i,
    {
        push_text(out, a);
        push_text(out, tools[i].name.as_str());
        push_text(out, b);
        push_text(out, tools[i].description.as_str());
        push_text(out, c);
        push_text(out, tools[i].schema.as_str());
        push_text(out, d);
        proof {
            assert(tools@.take(i + 1).drop_last() =~= tools@.take(i as int));
            assert(tools@.take(i + 1).last() == tools@[i as int]);
            assert(out@ =~= old(out)@ + tool_lines(tools@.take(i + 1), a@, b@, c@, d@));
        }
        i = i + 1;
    }
    assert(tools@.take(tools@.len() as int) =~= tools@);
}

fn push_pair_lines(out: &mut Vec<char>, pairs: &Vec<(String, String)>, a: &str, b: &str, c: &str)
    ensures
        final(out)@ == old(out)@ + pair_lines(pairs_view(pairs@), a@, b@, c@),
{
    let mut i: usize = 0;
    while i < pairs.len()
        invariant
            i <= pairs@.len(),
            out@ == old(out)@ + pair_lines(pairs_view(pairs@).take(i as int), a@, b@, c@),
        decreases pairs@.len() - i,
    {
        push_text(out, a);
        push_text(out, pairs[i].0.as_str());
        push_text(out, b);
        push_text(out, pairs[i].1.as_str());
        push_text(out, c);
        proof {
            let pv = pairs_view(pairs@);
            assert(pv.take(i + 1).drop_last() =~= pv.take(i as int));
            assert(pv.take(i + 1).last() == (pairs@[i as int].0@, pairs@[i as int].1@));
            assert(out@ =~= old(out)@ + pair_lines(pv.take(i + 1), a@, b@, c@));
        }
        i = i + 1;
    }
    assert(pairs_view(pairs@).take(pairs@.len() as int) =~= pairs_view(pairs@));
}

/// The tool catalogue of a prompt.
pub open spec fn catalogue(tools: Seq<ToolDescription>) -> Seq<char> {
    "\n\nAvailable tools:\n"@ + tool_lines(tools, "- "@, ": "@, "\n  Parameters: "@, "\n"@)
}

pub open spec fn streaming_instructions_text() -> Seq<char> {
    "\nWhen you need to use a tool:\n1. Output the tool call as a complete JSON object on its own line\n2. Do not include any explanation before or mixed with the JSON\n3. After the tool executes, you can explain what you did\n\nGood example:\n{\"tool\": \"list_files\", \"params\": {\"path\": \".\"}}\n\nBad example:\nLet me list the files {\"tool\": \"list_files\", \"params\": {\"path\": \".\"}} for you.\n\nThis ensures clean streaming to the user.\n"@
}

/// A system prompt with the tools appended for streaming use; unchanged
/// when enhancement is off or there is no tool.
pub open spec fn enhanced_prompt(base: Seq<char>, enabled: bool, tools: Seq<ToolDescription>) -> Seq<char> {
    if !enabled || tools.len() == 0 {
        base
    } else {
        base + "\n\n## Available Tools\n\n"@ + streaming_instructions_text()
            + "\n\nYour available tools are:\n"@ + tool_lines(
            tools,
            "- `"@,
            "`: "@,
            "\n  Parameters: "@,
            "\n"@,
        )
    }
}

/// Appends the tool catalogue and streaming instructions to a system
/// prompt, when `enabled` and there are tools.
pub fn enhance_system_prompt(original_prompt: &str, enabled: bool, tools: &Vec<ToolDescription>) -> (r: String)
    ensures
        r@ == enhanced_prompt(original_prompt@, enabled, tools@),
{
    if !enabled || tools.len() == 0 {
        return original_prompt.to_string();
    }
    let mut out = chars_of(original_prompt);
    push_text(&mut out, "\n\n## Available Tools\n\n");
    push_text(
        &mut out,
        "\nWhen you need to use a tool:\n1. Output the tool call as a complete JSON object on its own line\n2. Do not include any explanation before or mixed with the JSON\n3. After the tool executes, you can explain what you did\n\nGood example:\n{\"tool\": \"list_files\", \"params\": {\"path\": \".\"}}\n\nBad example:\nLet me list the files {\"tool\": \"list_files\", \"params\": {\"path\": \".\"}} for you.\n\nThis ensures clean streaming to the user.\n",
    );
    push_text(&mut out, "\n\nYour available tools are:\n");
    push_tool_lines(&mut out, tools, "- `", "`: ", "\n  Parameters: ", "\n");
    string_from_chars(&out)
}

/// The prompt that asks for the answer to `user_message`.
pub open spec fn turn_prompt(
    system: Seq<char>,
    instructions: Seq<char>,
    tools: Seq<ToolDescription>,
    history: Seq<(Seq<char>, Seq<char>)>,
    user_message: Seq<char>,
) -> Seq<char> {
    system + catalogue(tools) + instructions + (if history.len() == 0 {
        Seq::empty()
    } else {
        "\n\nConversation history:\n"@ + pair_lines(history, ""@, ": "@, "\n"@)
    }) + "\nUser: "@ + user_message + "\nAssistant: "@
}

/// The prompt that re-asks with every tool result so far.
pub open spec fn results_prompt(
    tools: Seq<ToolDescription>,
    current_text: Seq<char>,
    results: Seq<(Seq<char>, Seq<char>)>,
    user_message: Seq<char>,
) -> Seq<char> {
    catalogue(tools) + "\nYour previous response:\n"@ + current_text + "\n\nTool results:\n"@
        + pair_lines(results, "- "@, ": "@, "\n"@)
        + "\nUsing these results, answer the user's request.\nUser: "@ + user_message
        + "\nAssistant: "@
}

impl PromptTemplate {
    /// The prompt for a turn: system prompt, tool catalogue, tool-use
    /// instructions, earlier conversation (role and text per line, when
    /// there is any) and the user's message.
    pub fn format_with_tools(
        &self,
        tools: &Vec<ToolDescription>,
        conversation: &Vec<(String, String)>,
        user_message: &str,
    ) -> (r: String)
        ensures
            r@ == turn_prompt(
                self.system_prompt_view(),
                self.instructions_view(),
                tools@,
                pairs_view(conversation@),
                user_message@,
            ),
    {
        let mut out = chars_of(self.system_prompt.as_str());
        push_text(&mut out, "\n\nAvailable tools:\n");
        push_tool_lines(&mut out, tools, "- ", ": ", "\n  Parameters: ", "\n");
        let instructions = self.tool_usage_instructions();
        push_text(&mut out, instructions.as_str());
        if conversation.len() > 0 {
            push_text(&mut out, "\n\nConversation history:\n");
            push_pair_lines(&mut out, conversation, "", ": ", "\n");
        }
        push_text(&mut out, "\nUser: ");
        push_text(&mut out, user_message);
        push_text(&mut out, "\nAssistant: ");
        string_from_chars(&out)
    }
}

/// The re-prompt of a tool round: the tool catalogue, the current response,
/// every tool result so far as (tool name, result JSON text), and the
/// user's message.
pub fn format_tool_results_prompt(
    tools: &Vec<ToolDescription>,
    current_text: &str,
    results: &Vec<(String, String)>,
    user_message: &str,
) -> (r: String)
    ensures
        r@ == results_prompt(tools@, current_text@, pairs_view(results@), user_message@),
{
    let mut out: Vec<char> = Vec::new();
    push_text(&mut out, "\n\nAvailable tools:\n");
    push_tool_lines(&mut out, tools, "- ", ": ", "\n  Parameters: ", "\n");
    push_text(&mut out, "\nYour previous response:\n");
    push_text(&mut out, current_text);
    push_text(&mut out, "\n\nTool results:\n");
    push_pair_lines(&mut out, results, "- ", ": ", "\n");
    push_text(&mut out, "\nUsing these results, answer the user's request.\nUser: ");
    push_text(&mut out, user_message);
    push_text(&mut out, "\nAssistant: ");
    string_from_chars(&out)
}

} // verus!
