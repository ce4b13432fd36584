use vstd::prelude::*;
use vstd::string::*;

use crate::classifier::{ToolCall, calls_match, char_is_space, exec_lit_at, exec_skip_space, is_space, lit_at, skip_space};
use crate::conversation::{ConversationManager, history_pairs};
use crate::json::{json_pretty_text, json_pretty_text_of, json_text, json_text_of, string_from_chars};
use crate::pipeline::ExecutedTool;
use crate::prompts::{PromptTemplate, ToolDescription, pairs_view, turn_prompt};
use crate::prompts::{extracted_tool_objects, parse_json_tool_calls};
use crate::text::{chars_of, push_text, same_text, slice_chars};

verus! {

/// Most rounds of tool calls in one attempt.
pub const MAX_TOOL_ROUNDS: usize = 10;

/// Temperature of the first attempt, in thousandths.
pub const BASE_TEMPERATURE: u32 = 700;

/// Temperature of every re-prompt with tool results, in thousandths.
pub const TOOL_ROUND_TEMPERATURE: u32 = 300;

/// Token counts a generator reports for one call.
pub struct TokenUsage {
    pub prompt_tokens: u32,
    pub completion_tokens: u32,
    pub total_tokens: u32,
}

/// What the generator returns for one prompt.
pub struct LlmResponse {
    pub text: String,
    pub finish_reason: Option<String>,
    pub usage: Option<TokenUsage>,
}

/// Limits on what one request may do.
pub struct SafetyConfig {
    pub max_tokens_per_request: usize,
    pub max_tools_per_request: usize,
    pub rate_limit_per_minute: u32,
    pub blocked_tool_patterns: Vec<String>,
}

/// Settings of the round orchestrator. Temperatures are in thousandths.
pub struct McpHostConfig {
    pub max_retries: u32,
    pub retry_delay_ms: u64,
    pub temperature_reduction: u32,
    pub safety_constraints: SafetyConfig,
}

impl Default for SafetyConfig {
    fn default() -> (r: Self)
        ensures
            r.max_tokens_per_request == 100,
            r.max_tools_per_request == 5,
            r.rate_limit_per_minute == 30,
            r.blocked_tool_patterns@.len() == 0,
    {
        SafetyConfig {
            max_tokens_per_request: 100,
            max_tools_per_request: 5,
            rate_limit_per_minute: 30,
            blocked_tool_patterns: Vec::new(),
        }
    }
}

impl Default for McpHostConfig {
    fn default() -> (r: Self)
        ensures
            r.max_retries == 3,
            r.retry_delay_ms == 500,
            r.temperature_reduction == 100,
            r.safety_constraints.max_tools_per_request == 5,
            r.safety_constraints.max_tokens_per_request == 100,
    {
        McpHostConfig {
            max_retries: 3,
            retry_delay_ms: 500,
            temperature_reduction: 100,
            safety_constraints: SafetyConfig::default(),
        }
    }
}

// ---------------------------------------------------------------------------
// Temperature annealing and retries.

/// `max(0, base - reduction * attempt)`.
pub open spec fn annealed(base: int, reduction: int, attempt: int) -> int {
    if base - reduction * attempt > 0 {
        base - reduction * attempt
    } else {
        0
    }
}

/// `base` doubled `n` times, saturating at the largest `u64`.
pub open spec fn doubled(base: nat, n: nat) -> nat
    decreases n,
{
    if n == 0 {
        base
    } else if 2 * doubled(base, (n - 1) as nat) > u64::MAX {
        u64::MAX as nat
    } else {
        2 * doubled(base, (n - 1) as nat)
    }
}

/// The exponential backoff with jitter: `doubled(base, attempt)` plus
/// `3 * permille / 10000` of it, saturating at the largest `u64`.
pub open spec fn backoff_delay(base: nat, attempt: nat, permille: nat) -> nat {
    let e = doubled(base, attempt);
    let total = e + e * 3 * permille / 10000;
    if total > u64::MAX {
        u64::MAX as nat
    } else {
        total
    }
}

/// How the orchestrator retries a failed attempt.
pub struct RetryStrategy {
    max_retries: u32,
    base_delay_ms: u64,
    temperature_reduction: u32,
}

impl RetryStrategy {
    pub closed spec fn reduction(&self) -> int {
        self.temperature_reduction as int
    }

    pub closed spec fn retries(&self) -> int {
        self.max_retries as int
    }

    pub closed spec fn base_delay(&self) -> u64 {
        self.base_delay_ms
    }

    pub fn new(max_retries: u32, base_delay_ms: u64, temperature_reduction: u32) -> (r: Self)
        ensures
            r.retries() == max_retries,
            r.reduction() == temperature_reduction,
            r.base_delay() == base_delay_ms,
    {
        RetryStrategy { max_retries, base_delay_ms, temperature_reduction }
    }

    /// The temperature of attempt `attempt`: `base` lowered by the reduction
    /// once per earlier attempt, and never below zero.
    pub fn calculate_temperature(&self, base_temperature: u32, attempt: u32) -> (r: u32)
        ensures
            r == annealed(base_temperature as int, self.reduction(), attempt as int),
    {
        let r = self.temperature_reduction as u64;
        let a = attempt as u64;
        assert(r * a <= 0xffff_ffff * 0xffff_ffff) by (nonlinear_arith)
            requires
                r <= 0xffff_ffff,
                a <= 0xffff_ffff,
        ;
        let reduction: u64 = r * a;
        if reduction >= base_temperature as u64 {
            0
        } else {
            (base_temperature as u64 - reduction) as u32
        }
    }

    /// The pause before retrying after attempt `attempt` failed: the base
    /// delay doubled once per attempt, plus a jitter of up to 30% of that,
    /// where `jitter_permille` (below 1000) is the random draw in
    /// thousandths. Doubling and the sum saturate at the largest `u64`.
    pub fn calculate_delay(&self, attempt: u32, jitter_permille: u64) -> (r: u64)
        requires
            jitter_permille < 1000,
        ensures
            r == backoff_delay(self.base_delay() as nat, attempt as nat, jitter_permille as nat),
    {
        let mut exp: u64 = self.base_delay_ms;
        let mut i: u32 = 0;
        while i < attempt
            invariant
                i <= attempt,
                exp as nat == doubled(self.base_delay_ms as nat, i as nat),
            decreases attempt - i,
        {
            exp = if exp > u64::MAX / 2 {
                u64::MAX
            } else {
                exp * 2
            };
            i = i + 1;
        }
        let e = exp as u128;
        let f = jitter_permille as u128;
        assert(e * 3 * f <= 0xffff_ffff_ffff_ffff * 3 * 1000) by (nonlinear_arith)
            requires
                e <= 0xffff_ffff_ffff_ffff,
                f < 1000,
        ;
        let jitter: u128 = e * 3 * f / 10000;
        assert(jitter <= exp as u128) by (nonlinear_arith)
            requires
                jitter == e * 3 * f / 10000,
                e == exp as u128,
                f < 1000,
        ;
        let j = jitter as u64;
        if exp > u64::MAX - j {
            u64::MAX
        } else {
            exp + j
        }
    }

    /// What follows the failure of attempt `attempt`.
    pub fn after_failure(&self, attempt: u32) -> (r: Option<u32>)
        ensures
            attempt < self.retries() ==> r == Some((attempt + 1) as u32),
            attempt >= self.retries() ==> r is None,
    {
        if attempt < self.max_retries {
            Some(attempt + 1)
        } else {
            None
        }
    }
}

/// Annealing never raises the temperature from one attempt to a later one,
/// and lowers it strictly while it is above zero and the reduction is
/// positive.
pub proof fn lemma_annealing_non_increasing(base: int, reduction: int, a: int, b: int)
    requires
        0 <= reduction,
        0 <= a <= b,
    ensures
        annealed(base, reduction, a) >= annealed(base, reduction, b),
        reduction > 0 && a < b && annealed(base, reduction, b) > 0 ==> annealed(base, reduction, a)
            > annealed(base, reduction, b),
{
    assert(reduction * a <= reduction * b) by (nonlinear_arith)
        requires
            0 <= reduction,
            a <= b,
    ;
    if reduction > 0 && a < b {
        assert(reduction * a < reduction * b) by (nonlinear_arith)
            requires
                0 < reduction,
                a < b,
        ;
    }
}

/// Decimal digits of `n`.
pub open spec fn decimal(n: nat) -> Seq<char>
    decreases n,
{
    if n < 10 {
        seq![digit_char(n)]
    } else {
        decimal(n / 10).push(digit_char(n % 10))
    }
}

pub open spec fn digit_char(d: nat) -> char {
    if d == 0 { '0' } else if d == 1 { '1' } else if d == 2 { '2' } else if d == 3 { '3' }
    else if d == 4 { '4' } else if d == 5 { '5' } else if d == 6 { '6' } else if d == 7 { '7' }
    else if d == 8 { '8' } else { '9' }
}

fn exec_digit(d: u64) -> (r: char)
    requires
        d < 10,
    ensures
        r == digit_char(d as nat),
{
    if d == 0 { '0' } else if d == 1 { '1' } else if d == 2 { '2' } else if d == 3 { '3' }
    else if d == 4 { '4' } else if d == 5 { '5' } else if d == 6 { '6' } else if d == 7 { '7' }
    else if d == 8 { '8' } else { '9' }
}

fn push_decimal(out: &mut Vec<char>, n: u64)
    ensures
        final(out)@ == old(out)@ + decimal(n as nat),
    decreases n,
{
    if n < 10 {
        out.push(exec_digit(n));
        assert(old(out)@.push(digit_char(n as nat)) =~= old(out)@ + decimal(n as nat));
    } else {
        push_decimal(out, n / 10);
        out.push(exec_digit(n % 10));
        assert(old(out)@ + decimal((n / 10) as nat) + seq![digit_char((n % 10) as nat)]
            =~= old(out)@ + decimal(n as nat));
    }
}

/// The lines that list earlier failures, one per error, numbered from 1.
pub open spec fn error_lines(errors: Seq<Seq<char>>) -> Seq<char>
    decreases errors.len(),
{
    if errors.len() == 0 {
        Seq::empty()
    } else {
        error_lines(errors.drop_last()) + "Attempt "@ + decimal(errors.len()) + ": "@
            + errors.last() + "\n"@
    }
}

pub open spec fn retry_header() -> Seq<char> {
    "\n\nIMPORTANT: Previous attempts failed with these errors:\n"@
}

pub open spec fn retry_footer() -> Seq<char> {
    "\nPlease correct these issues in your response. Ensure:\n1. Tool calls use valid JSON format\n2. Parameter names match the schema exactly\n3. Required parameters are not missing\n"@
}

/// The prompt of a retry: the plain prompt, unchanged when nothing has
/// failed yet, and otherwise followed by every earlier error and the format
/// reminders.
pub open spec fn retry_prompt(plain: Seq<char>, errors: Seq<Seq<char>>) -> Seq<char> {
    if errors.len() == 0 {
        plain
    } else {
        plain + retry_header() + error_lines(errors) + retry_footer()
    }
}

/// What the orchestrator knows across the attempts of one turn.
pub struct RetryContext {
    pub attempt: u32,
    pub temperature: u32,
    pub previous_errors: Vec<String>,
}

pub open spec fn error_views(v: Seq<String>) -> Seq<Seq<char>> {
    v.map_values(|s: String| s@)
}

impl RetryContext {
    pub fn new(attempt: u32, temperature: u32) -> (r: Self)
        ensures
            r.attempt == attempt,
            r.temperature == temperature,
            r.previous_errors@.len() == 0,
    {
        RetryContext { attempt, temperature, previous_errors: Vec::new() }
    }

    /// Records the error of a failed attempt.
    pub fn add_error(&mut self, error: String)
        ensures
            final(self).previous_errors@ == old(self).previous_errors@.push(error),
            final(self).attempt == old(self).attempt,
            final(self).temperature == old(self).temperature,
    {
        self.previous_errors.push(error);
    }

    fn push_error_lines(&self, out: &mut Vec<char>)
        requires
            self.previous_errors@.len() < u64::MAX,
        ensures
            final(out)@ == old(out)@ + error_lines(error_views(self.previous_errors@)),
    {
        let ghost errs = error_views(self.previous_errors@);
        let ghost start = out@;
        let mut i: usize = 0;
        assert(errs.take(0) =~= Seq::<Seq<char>>::empty());
        assert(start + error_lines(errs.take(0)) =~= start);
        while i < self.previous_errors.len()
            invariant
                i <= self.previous_errors@.len(),
                self.previous_errors@.len() < u64::MAX,
                errs == error_views(self.previous_errors@),
                start == old(out)@,
                out@ == start + error_lines(errs.take(i as int)),
            decreases self.previous_errors@.len() - i,
        {
            push_text(out, "Attempt ");
            push_decimal(out, (i + 1) as u64);
            push_text(out, ": ");
            push_text(out, self.previous_errors[i].as_str());
            push_text(out, "\n");
            proof {
                assert(errs.take(i + 1).drop_last() =~= errs.take(i as int));
                assert(errs.take(i + 1).last() == self.previous_errors@[i as int]@);
                assert(out@ =~= start + error_lines(errs.take(i + 1)));
            }
            i = i + 1;
        }
        assert(errs.take(self.previous_errors@.len() as int) =~= errs);
    }

    /// Every recorded error, one numbered line each, for reporting a turn
    /// whose attempts all failed.
    pub fn failure_summary(&self) -> (r: String)
        requires
            self.previous_errors@.len() < u64::MAX,
        ensures
            r@ == error_lines(error_views(self.previous_errors@)),
    {
        let mut out: Vec<char> = Vec::new();
        self.push_error_lines(&mut out);
        assert(Seq::<char>::empty() + error_lines(error_views(self.previous_errors@)) =~= error_lines(error_views(self.previous_errors@)));
        string_from_chars(&out)
    }

    /// The prompt for the next attempt.
    pub fn build_retry_prompt(&self, plain_prompt: &str) -> (r: String)
        requires
            self.previous_errors@.len() < u64::MAX,
        ensures
            r@ == retry_prompt(plain_prompt@, error_views(self.previous_errors@)),
    {
        if self.previous_errors.len() == 0 {
            return plain_prompt.to_string();
        }
        let mut out: Vec<char> = chars_of(plain_prompt);
        push_text(&mut out, "\n\nIMPORTANT: Previous attempts failed with these errors:\n");
        self.push_error_lines(&mut out);
        push_text(
            &mut out,
            "\nPlease correct these issues in your response. Ensure:\n1. Tool calls use valid JSON format\n2. Parameter names match the schema exactly\n3. Required parameters are not missing\n",
        );
        string_from_chars(&out)
    }
}

// ---------------------------------------------------------------------------
// Rounds of tool calls.

/// The first index at or after `i` where `lit` occurs in `s`.
pub open spec fn find_from(s: Seq<char>, lit: Seq<char>, i: int) -> Option<int>
    decreases s.len() + 1 - i,
{
    if i < 0 || i + lit.len() > s.len() {
        None
    } else if lit_at(s, i, lit) {
        Some(i)
    } else {
        find_from(s, lit, i + 1)
    }
}

/// Index just past the last non-whitespace char of `s[..j]`.
pub open spec fn trim_end_index(s: Seq<char>, j: int) -> int
    decreases j,
{
    if j <= 0 || j > s.len() {
        if j > s.len() { s.len() as int } else { 0 }
    } else if is_space(s[j - 1]) {
        trim_end_index(s, j - 1)
    } else {
        j
    }
}

/// `s` without leading and trailing whitespace.
pub open spec fn trimmed(s: Seq<char>) -> Seq<char> {
    let a = skip_space(s, 0);
    let b = trim_end_index(s, s.len() as int);
    if a < b {
        s.subrange(a, b)
    } else {
        Seq::empty()
    }
}

pub open spec fn think_open() -> Seq<char> {
    seq!['<', 't', 'h', 'i', 'n', 'k', '>']
}

pub open spec fn think_close() -> Seq<char> {
    seq!['<', '/', 't', 'h', 'i', 'n', 'k', '>']
}

/// A response without its first `<think>` block: when both `<think>` and
/// `</think>` occur, the text before the first `<think>` joined to the text
/// after the first `</think>`, trimmed; otherwise the response unchanged.
pub open spec fn strip_think_view(s: Seq<char>) -> Seq<char> {
    match (find_from(s, think_open(), 0), find_from(s, think_close(), 0)) {
        (Some(a), Some(b)) => trimmed(s.subrange(0, a) + s.subrange(b + 8, s.len() as int)),
        _ => s,
    }
}

proof fn lemma_find_from_bounds(s: Seq<char>, lit: Seq<char>, i: int)
    requires
        0 <= i,
    ensures
        find_from(s, lit, i) is Some ==> i <= find_from(s, lit, i)->0 && find_from(s, lit, i)->0
            + lit.len() <= s.len(),
    decreases s.len() + 1 - i,
{
    if i + lit.len() <= s.len() && !lit_at(s, i, lit) {
        lemma_find_from_bounds(s, lit, i + 1);
    }
}

fn exec_find(s: &Vec<char>, lit: &Vec<char>) -> (r: Option<usize>)
    ensures
        match r {
            Some(i) => find_from(s@, lit@, 0) == Some(i as int),
            None => find_from(s@, lit@, 0) is None,
        },
{
    if lit.len() == 0 {
        assert(s@.subrange(0, 0) =~= lit@);
        return Some(0);
    }
    let mut i: usize = 0;
    while lit.len() <= s.len() && i <= s.len() - lit.len()
        invariant
            lit@.len() > 0,
            find_from(s@, lit@, i as int) == find_from(s@, lit@, 0),
        decreases s@.len() + 1 - i,
    {
        if exec_lit_at(s, i, lit) {
            return Some(i);
        }
        i = i + 1;
    }
    None
}

fn exec_trim(s: &Vec<char>) -> (r: Vec<char>)
    ensures
        r@ == trimmed(s@),
{
    let a = exec_skip_space(s, 0);
    let mut b = s.len();
    while b > 0 && char_is_space(s[b - 1])
        invariant
            b <= s@.len(),
            trim_end_index(s@, b as int) == trim_end_index(s@, s@.len() as int),
        decreases b,
    {
        b = b - 1;
    }
    if a < b {
        slice_chars(s, a, b)
    } else {
        Vec::new()
    }
}

/// Removes the first `<think>...</think>` block from a response.
pub fn strip_think(response: &str) -> (r: String)
    ensures
        r@ == strip_think_view(response@),
{
    let s = chars_of(response);
    let open = vec!['<', 't', 'h', 'i', 'n', 'k', '>'];
    let close = vec!['<', '/', 't', 'h', 'i', 'n', 'k', '>'];
    assert(open@ =~= think_open());
    assert(close@ =~= think_close());
    match (exec_find(&s, &open), exec_find(&s, &close)) {
        (Some(a), Some(b)) => {
            proof {
                lemma_find_from_bounds(s@, think_open(), 0);
                lemma_find_from_bounds(s@, think_close(), 0);
                assert(think_close().len() == 8);
                assert(b + 8 <= s@.len());
            }
            let mut joined = slice_chars(&s, 0, a);
            let n = s.len();
            let mut after = slice_chars(&s, b + 8, n);
            joined.append(&mut after);
            string_from_chars(&exec_trim(&joined))
        },
        _ => response.to_string(),
    }
}

/// The error of an attempt that asked for too many tool calls.
pub open spec fn too_many_tools_text(count: nat, max: nat) -> Seq<char> {
    "Too many tool calls ("@ + decimal(count) + ") - max allowed: "@ + decimal(max)
}

/// The error of an attempt that used up its rounds.
pub open spec fn rounds_exceeded_text() -> Seq<char> {
    "Tool execution loop exceeded maximum rounds"@
}

/// What the orchestrator does with a response.
pub enum RoundDecision {
    /// No tool call: the text is the turn's answer.
    Finish(String),
    /// Run these calls in order, then re-prompt with their results.
    ExecuteTools { text: String, calls: Vec<ToolCall> },
    /// More calls than allowed: the attempt fails and nothing is run.
    TooManyTools { count: usize, max: usize },
    /// The attempt has used up its rounds.
    RoundsExceeded,
}

impl RoundDecision {
    /// The error text of a failed attempt, if the decision is one.
    pub fn error_message(&self) -> (r: Option<String>)
        ensures
            r is Some <==> (self is TooManyTools || self is RoundsExceeded),
            self matches RoundDecision::TooManyTools { count, max } ==> (r matches Some(m) && m@
                == too_many_tools_text(count as nat, max as nat)),
            self is RoundsExceeded ==> (r matches Some(m) && m@ == rounds_exceeded_text()),
    {
        match self {
            RoundDecision::TooManyTools { count, max } => {
                let mut out = chars_of("Too many tool calls (");
                push_decimal(&mut out, *count as u64);
                push_text(&mut out, ") - max allowed: ");
                push_decimal(&mut out, *max as u64);
                Some(string_from_chars(&out))
            },
            RoundDecision::RoundsExceeded => Some(
                String::from_str("Tool execution loop exceeded maximum rounds"),
            ),
            _ => None,
        }
    }
}

/// Decides a round: `rounds_done` rounds of this attempt have begun before
/// this response came. The response is first stripped of its `<think>`
/// block, then searched for tool calls.
pub fn validate_round(rounds_done: usize, response: &str, max_tools_per_request: usize) -> (r:
    RoundDecision)
    ensures
        rounds_done >= MAX_TOOL_ROUNDS ==> r is RoundsExceeded,
        rounds_done < MAX_TOOL_ROUNDS ==> ({
            let text = strip_think_view(response@);
            let objects = extracted_tool_objects(text);
            &&& objects.len() == 0 ==> (r matches RoundDecision::Finish(t) && t@ == text)
            &&& objects.len() > max_tools_per_request ==> (r matches RoundDecision::TooManyTools {
                count,
                max,
            } && count == objects.len() && max == max_tools_per_request)
            &&& 0 < objects.len() <= max_tools_per_request ==> (r matches RoundDecision::ExecuteTools {
                text: t,
                calls,
            } && t@ == text && calls_match(calls@, objects))
        }),
{
    if rounds_done >= MAX_TOOL_ROUNDS {
        return RoundDecision::RoundsExceeded;
    }
    let text = strip_think(response);
    let calls = parse_json_tool_calls(text.as_str());
    if calls.len() == 0 {
        RoundDecision::Finish(text)
    } else if calls.len() > max_tools_per_request {
        RoundDecision::TooManyTools { count: calls.len(), max: max_tools_per_request }
    } else {
        RoundDecision::ExecuteTools { text, calls }
    }
}

// ---------------------------------------------------------------------------
// Prompts and rounds of a turn.

/// The message a prompt answers: the last history entry when it is the
/// user's, and nothing otherwise.
pub open spec fn prompt_user_message(h: Seq<(Seq<char>, Seq<char>)>) -> Seq<char> {
    if h.len() > 0 && h.last().0 == "User"@ {
        h.last().1
    } else {
        Seq::empty()
    }
}

/// The history a prompt shows: every entry but the last.
pub open spec fn earlier_history(h: Seq<(Seq<char>, Seq<char>)>) -> Seq<(Seq<char>, Seq<char>)> {
    if h.len() > 0 {
        h.drop_last()
    } else {
        h
    }
}

/// The prompt for the current turn: the template's system prompt and tool
/// instructions, the tools, the history without its last entry, and that
/// last entry as the user's message when the user wrote it.
pub fn build_prompt(
    template: &PromptTemplate,
    conversation: &ConversationManager,
    tools: &Vec<ToolDescription>,
) -> (r: String)
    ensures
        ({
            let h = history_pairs(conversation.history());
            r@ == turn_prompt(
                template.system_prompt_view(),
                template.instructions_view(),
                tools@,
                earlier_history(h),
                prompt_user_message(h),
            )
        }),
{
    let mut history = conversation.get_conversation_history();
    let ghost h = pairs_view(history@);
    let n = history.len();
    let user = if n > 0 && same_text(history[n - 1].0.as_str(), "User") {
        history[n - 1].1.clone()
    } else {
        String::new()
    };
    if n > 0 {
        let _ = history.pop();
        assert(pairs_view(history@) =~= h.drop_last());
    }
    template.format_with_tools(tools, &history, user.as_str())
}

/// A tool for a prompt, with its schema written as indented JSON when
/// `pretty` and as compact JSON otherwise.
pub fn describe_tool(name: String, description: String, schema: &serde_json::Value, pretty: bool) -> (r:
    ToolDescription)
    ensures
        r.name@ == name@,
        r.description@ == description@,
        r.schema@ == if pretty {
            json_pretty_text_of(*schema)
        } else {
            json_text_of(*schema)
        },
{
    let text = if pretty {
        json_pretty_text(schema)
    } else {
        json_text(schema)
    };
    ToolDescription { name, description, schema: text }
}

/// The (tool name, result JSON text) pair of an executed tool.
pub open spec fn result_entry(e: ExecutedTool) -> (Seq<char>, Seq<char>) {
    (e.tool_name@, json_text_of(e.result))
}

/// What an attempt carries from round to round: how many rounds have run
/// and every tool result so far, as (tool name, result JSON text).
pub struct RoundState {
    pub rounds_done: usize,
    pub results: Vec<(String, String)>,
}

impl RoundState {
    pub fn new() -> (r: Self)
        ensures
            r.rounds_done == 0,
            r.results@.len() == 0,
    {
        RoundState { rounds_done: 0, results: Vec::new() }
    }

    /// Records a round whose tools ran: the results so far followed by this
    /// round's, in order, and one more round done.
    pub fn record_round(&mut self, executed: &Vec<ExecutedTool>)
        requires
            old(self).rounds_done < usize::MAX,
        ensures
            final(self).rounds_done == old(self).rounds_done + 1,
            pairs_view(final(self).results@) == pairs_view(old(self).results@) + executed@.map_values(
                |e: ExecutedTool| result_entry(e),
            ),
    {
        let ghost start = pairs_view(self.results@);
        let mut i: usize = 0;
        while i < executed.len()
            invariant
                i <= executed@.len(),
                self.rounds_done == old(self).rounds_done,
                start == pairs_view(old(self).results@),
                pairs_view(self.results@) == start + executed@.take(i as int).map_values(
                    |e: ExecutedTool| result_entry(e),
                ),
            decreases executed@.len() - i,
        {
            let ghost before = self.results@;
            let name = executed[i].tool_name.clone();
            let text = json_text(&executed[i].result);
            self.results.push((name, text));
            proof {
                assert(executed@.take(i + 1) =~= executed@.take(i as int).push(executed@[i as int]));
                assert(pairs_view(self.results@) =~= pairs_view(before).push(
                    result_entry(executed@[i as int]),
                ));
                assert(executed@.take(i + 1).map_values(|e: ExecutedTool| result_entry(e))
                    =~= executed@.take(i as int).map_values(|e: ExecutedTool| result_entry(e)).push(
                    result_entry(executed@[i as int]),
                ));
            }
            i = i + 1;
        }
        assert(executed@.take(executed@.len() as int) =~= executed@);
        self.rounds_done = self.rounds_done + 1;
    }
}

} // verus!
