use vstd::prelude::*;
use vstd::string::*;

use crate::json::{parse_tool_call, tool_call_fields, tool_call_params, string_from_chars};
use crate::scanner::{brace_depth, calculate_brace_depth};
use crate::text::slice_chars;

verus! {

/// A span of model output, classified for display.
pub enum TokenClass {
    /// Text to show to the user.
    Narrative(String),
    /// The raw text of a tool-call object; hidden from the user.
    ToolCall(String),
    /// Text not yet classified.
    Pending(String),
}

/// A tool invocation recognised in model output.
pub struct ToolCall {
    pub tool: String,
    pub params: serde_json::Value,
}

/// Where the classifier stands between two fragments.
#[derive(PartialEq, Eq, Structural, Clone, Copy, Debug)]
pub enum ParserState {
    Narrative,
    MaybeToolStart,
    InToolCall { brace_depth: usize },
    AfterToolCall,
}

/// What processing one fragment hands to the display and tool channels, in
/// order.
pub struct StepOutput {
    pub tokens: Vec<TokenClass>,
    pub tool_calls: Vec<ToolCall>,
}

/// Incremental classifier of model output into narrative and tool calls.
pub struct StreamingInterceptor {
    buffer: Vec<char>,
    state: ParserState,
    max_buffer_size: usize,
}

/// Longest buffer that `MaybeToolStart` keeps before giving up on a tool call.
pub const MAYBE_TOOL_LIMIT: usize = 50;

/// Buffer size before a narrative span is forced out, unless configured.
pub const DEFAULT_MAX_BUFFER: usize = 200;

// ---------------------------------------------------------------------------
// The tool-start heuristic.

/// Unicode white space: the chars of the `White_Space` property.
pub open spec fn is_space(c: char) -> bool {
    let u = c as u32;
    (0x09 <= u && u <= 0x0D) || u == 0x20 || u == 0x85 || u == 0xA0 || u == 0x1680 || (0x2000
        <= u && u <= 0x200A) || u == 0x2028 || u == 0x2029 || u == 0x202F || u == 0x205F || u
        == 0x3000
}

pub open spec fn is_quote_or_space(c: char) -> bool {
    c == '"' || c == '\'' || is_space(c)
}

/// First index at or after `j` whose char is not a quote or whitespace.
pub open spec fn skip_quote_space(s: Seq<char>, j: int) -> int
    decreases s.len() - j,
{
    if j < 0 || j >= s.len() {
        j
    } else if is_quote_or_space(s[j]) {
        skip_quote_space(s, j + 1)
    } else {
        j
    }
}

/// First index at or after `j` whose char is not whitespace.
pub open spec fn skip_space(s: Seq<char>, j: int) -> int
    decreases s.len() - j,
{
    if j < 0 || j >= s.len() {
        j
    } else if is_space(s[j]) {
        skip_space(s, j + 1)
    } else {
        j
    }
}

/// `lit` occurs in `s` at index `i`.
pub open spec fn lit_at(s: Seq<char>, i: int, lit: Seq<char>) -> bool {
    0 <= i && i + lit.len() <= s.len() && s.subrange(i, i + lit.len()) == lit
}

/// A `{` at `i`, then quotes or spaces, `tool`, quotes or spaces, and `:`.
pub open spec fn json_tool_key_at(s: Seq<char>, i: int) -> bool {
    0 <= i < s.len() && s[i] == '{' && {
        let k = skip_quote_space(s, i + 1);
        lit_at(s, k, seq!['t', 'o', 'o', 'l']) && {
            let m = skip_quote_space(s, k + 4);
            0 <= m < s.len() && s[m] == ':'
        }
    }
}

/// One of the tool-start markers begins at `i`.
pub open spec fn marker_at(s: Seq<char>, i: int) -> bool {
    json_tool_key_at(s, i) || lit_at(s, i, seq!['[', 'T', 'O', 'O', 'L']) || lit_at(
        s,
        i,
        seq!['<', 't', 'o', 'o', 'l', '>'],
    )
}

/// The buffer opens with optional whitespace and a `{`.
pub open spec fn opens_with_brace(s: Seq<char>) -> bool {
    let k = skip_space(s, 0);
    0 <= k < s.len() && s[k] == '{'
}

/// The heuristic that a tool call may be starting in `s`.
pub open spec fn tool_start_match(s: Seq<char>) -> bool {
    opens_with_brace(s) || exists|i: int| 0 <= i < s.len() && #[trigger] marker_at(s, i)
}

pub(crate) fn char_is_space(c: char) -> (r: bool)
    ensures
        r == is_space(c),
{
    let u = c as u32;
    (0x09 <= u && u <= 0x0D) || u == 0x20 || u == 0x85 || u == 0xA0 || u == 0x1680 || (0x2000
        <= u && u <= 0x200A) || u == 0x2028 || u == 0x2029 || u == 0x202F || u == 0x205F || u
        == 0x3000
}

fn exec_skip_quote_space(s: &Vec<char>, j: usize) -> (r: usize)
    requires
        j <= s@.len(),
    ensures
        r as int == skip_quote_space(s@, j as int),
        j <= r <= s@.len(),
{
    let mut k = j;
    while k < s.len() && (s[k] == '"' || s[k] == '\'' || char_is_space(s[k]))
        invariant
            j <= k <= s@.len(),
            skip_quote_space(s@, k as int) == skip_quote_space(s@, j as int),
        decreases s@.len() - k,
    {
        k = k + 1;
    }
    k
}

pub(crate) fn exec_skip_space(s: &Vec<char>, j: usize) -> (r: usize)
    requires
        j <= s@.len(),
    ensures
        r as int == skip_space(s@, j as int),
        j <= r <= s@.len(),
{
    let mut k = j;
    while k < s.len() && char_is_space(s[k])
        invariant
            j <= k <= s@.len(),
            skip_space(s@, k as int) == skip_space(s@, j as int),
        decreases s@.len() - k,
    {
        k = k + 1;
    }
    k
}

pub(crate) fn exec_lit_at(s: &Vec<char>, i: usize, lit: &Vec<char>) -> (r: bool)
    ensures
        r == lit_at(s@, i as int, lit@),
{
    if i > s.len() || lit.len() > s.len() - i {
        return false;
    }
    let n = s.len();
    let mut k: usize = 0;
    while k < lit.len()
        invariant
            n == s@.len(),
            i + lit@.len() <= s@.len(),
            k <= lit@.len(),
            forall|t: int| 0 <= t < k ==> s@[i + t] == lit@[t],
        decreases lit@.len() - k,
    {
        if s[i + k] != lit[k] {
            assert(s@.subrange(i as int, i + lit@.len())[k as int] != lit@[k as int]);
            return false;
        }
        k = k + 1;
    }
    assert(s@.subrange(i as int, i + lit@.len()) =~= lit@);
    true
}

fn exec_marker_at(s: &Vec<char>, i: usize) -> (r: bool)
    requires
        i < s@.len(),
    ensures
        r == marker_at(s@, i as int),
{
    let n = s.len();
    let json_key = if s[i] == '{' {
        let k = exec_skip_quote_space(s, i + 1);
        let tool_lit = vec!['t', 'o', 'o', 'l'];
        assert(tool_lit@ =~= seq!['t', 'o', 'o', 'l']);
        if exec_lit_at(s, k, &tool_lit) {
            let m = exec_skip_quote_space(s, k + 4);
            m < s.len() && s[m] == ':'
        } else {
            false
        }
    } else {
        false
    };
    let tool_marker = vec!['[', 'T', 'O', 'O', 'L'];
    assert(tool_marker@ =~= seq!['[', 'T', 'O', 'O', 'L']);
    let tag_marker = vec!['<', 't', 'o', 'o', 'l', '>'];
    assert(tag_marker@ =~= seq!['<', 't', 'o', 'o', 'l', '>']);
    json_key || exec_lit_at(s, i, &tool_marker) || exec_lit_at(s, i, &tag_marker)
}

/// Whether `s` matches the tool-start heuristic: a JSON object whose first
/// key is `tool`, a `[TOOL` or `<tool>` marker, or a `{` after leading
/// whitespace.
pub fn matches_tool_start(s: &Vec<char>) -> (r: bool)
    ensures
        r == tool_start_match(s@),
{
    let k = exec_skip_space(s, 0);
    if k < s.len() && s[k] == '{' {
        return true;
    }
    let mut i: usize = 0;
    while i < s.len()
        invariant
            i <= s@.len(),
            !opens_with_brace(s@),
            forall|j: int| 0 <= j < i ==> !#[trigger] marker_at(s@, j),
        decreases s@.len() - i,
    {
        if exec_marker_at(s, i) {
            return true;
        }
        i = i + 1;
    }
    false
}

// ---------------------------------------------------------------------------
// One step of the classifier.

/// The buffer ends at a natural boundary: a newline, or a period and a space.
pub open spec fn ends_at_boundary(b: Seq<char>) -> bool {
    (b.len() >= 1 && b[b.len() - 1] == '\n') || (b.len() >= 2 && b[b.len() - 2] == '.'
        && b[b.len() - 1] == ' ')
}

/// Every char of `b` is whitespace.
pub open spec fn all_space(b: Seq<char>) -> bool {
    forall|i: int| 0 <= i < b.len() ==> is_space(#[trigger] b[i])
}

/// Result of a step: the new buffer, the new state, the spans emitted (each
/// with whether it is a parsed tool call), and the texts of the tool calls
/// handed to the tool channel.
pub type StepView = (Seq<char>, ParserState, Seq<(Seq<char>, bool)>, Seq<Seq<char>>);

/// The first index at or after `j` where a tool-start marker begins.
pub open spec fn first_marker(s: Seq<char>, j: int) -> int
    decreases s.len() - j,
{
    if j < 0 || j >= s.len() {
        s.len() as int
    } else if marker_at(s, j) {
        j
    } else {
        first_marker(s, j + 1)
    }
}

/// Where the tool start that the heuristic found begins.
pub open spec fn start_pos(s: Seq<char>) -> int {
    if opens_with_brace(s) {
        skip_space(s, 0)
    } else {
        first_marker(s, 0)
    }
}

/// The least `k >= j` such that `s[..k]` ends with a `}` that brings the
/// brace depth back to zero.
pub open spec fn first_close_from(s: Seq<char>, j: int) -> Option<int>
    decreases s.len() + 1 - j,
{
    if j < 1 || j > s.len() {
        None
    } else if s[j - 1] == '}' && brace_depth(s.subrange(0, j)) == Some(0int) {
        Some(j)
    } else {
        first_close_from(s, j + 1)
    }
}

/// Where the first object of `s` closes, if it does.
pub open spec fn first_close(s: Seq<char>) -> Option<int> {
    first_close_from(s, 1)
}

/// Emit `b` as narrative (when it is not empty) and move to `next`.
pub open spec fn narrative_all(b: Seq<char>, next: ParserState) -> StepView {
    if b.len() == 0 {
        (b, next, Seq::empty(), Seq::empty())
    } else {
        (Seq::empty(), next, seq![(b, false)], Seq::empty())
    }
}

/// `r` preceded by the span `span` and, when it is a tool call, its text.
pub open spec fn after_span(span: (Seq<char>, bool), r: StepView) -> StepView {
    (r.0, r.1, seq![span] + r.2, if span.1 {
        seq![span.0] + r.3
    } else {
        r.3
    })
}

pub open spec fn rank(st: ParserState) -> nat {
    match st {
        ParserState::AfterToolCall => 3,
        ParserState::Narrative => 2,
        ParserState::MaybeToolStart => 1,
        ParserState::InToolCall { .. } => 0,
    }
}

/// The state table applied to the whole buffer `b` in state `st`.
///
/// Two looks inside the buffer keep the result from depending on how the
/// stream was cut: narrative text in front of a tool start is emitted
/// before the tool call is examined, and when the buffer as a whole is not
/// a tool call, an object that closes inside it ends at its first return to
/// depth zero and the rest is classified after it. Whenever the state
/// changes, the new state's rule is applied to the same buffer at once.
///
/// Inside a tool call, a scan that finds more `}` than `{` keeps the prior
/// depth. An open object is held in full until it closes or the stream
/// ends: there is deliberately no forced flush, because cutting an object
/// would show the user part of a tool call. So outside the narrative state
/// the buffer is bounded only by the input; in the narrative state it stays
/// within the limit (`lemma_step_conserves`).
pub open spec fn go(b: Seq<char>, st: ParserState, max: nat) -> StepView
    decreases b.len(), rank(st),
{
    match st {
        ParserState::Narrative => {
            if tool_start_match(b) {
                let p = start_pos(b);
                if 0 < p < b.len() {
                    after_span(
                        (b.subrange(0, p), false),
                        go(b.subrange(p, b.len() as int), ParserState::MaybeToolStart, max),
                    )
                } else {
                    go(b, ParserState::MaybeToolStart, max)
                }
            } else if b.len() > max || ends_at_boundary(b) {
                narrative_all(b, ParserState::Narrative)
            } else {
                (b, ParserState::Narrative, Seq::empty(), Seq::empty())
            }
        },
        ParserState::MaybeToolStart => match brace_depth(b) {
            Some(d) => go(b, ParserState::InToolCall { brace_depth: d as usize }, max),
            None => if b.len() > MAYBE_TOOL_LIMIT {
                narrative_all(b, ParserState::Narrative)
            } else {
                (b, ParserState::MaybeToolStart, Seq::empty(), Seq::empty())
            },
        },
        ParserState::InToolCall { brace_depth: prior } => {
            let nd = match brace_depth(b) {
                Some(x) => x,
                None => prior as int,
            };
            if nd == 0 {
                if tool_call_fields(b) is Some {
                    (Seq::empty(), ParserState::AfterToolCall, seq![(b, true)], seq![b])
                } else {
                    match first_close(b) {
                        Some(k) => if 0 < k < b.len() && tool_call_fields(b.subrange(0, k)) is Some {
                            after_span(
                                (b.subrange(0, k), true),
                                go(b.subrange(k, b.len() as int), ParserState::AfterToolCall, max),
                            )
                        } else {
                            narrative_all(b, ParserState::Narrative)
                        },
                        None => narrative_all(b, ParserState::Narrative),
                    }
                }
            } else {
                (b, ParserState::InToolCall { brace_depth: nd as usize }, Seq::empty(), Seq::empty())
            }
        },
        ParserState::AfterToolCall => {
            if all_space(b) {
                (b, ParserState::AfterToolCall, Seq::empty(), Seq::empty())
            } else if tool_start_match(b) {
                go(b, ParserState::MaybeToolStart, max)
            } else {
                go(b, ParserState::Narrative, max)
            }
        },
    }
}

/// The classifier's transition on receiving the fragment `frag` with buffer
/// `buf` in state `st`: the table applied to `buf + frag`.
pub open spec fn step(buf: Seq<char>, st: ParserState, max: nat, frag: Seq<char>) -> StepView {
    go(buf + frag, st, max)
}

/// What the end of the stream emits: the residual buffer, as a tool call
/// when the stream ended inside one and as narrative otherwise.
pub open spec fn flush_view(buf: Seq<char>, st: ParserState) -> Option<(Seq<char>, bool)> {
    if buf.len() == 0 {
        None
    } else {
        Some((buf, st is InToolCall))
    }
}

/// `out` carries the span `em`, as a tool call exactly when `tool`.
pub open spec fn emitted_as(out: Option<TokenClass>, em: Option<Seq<char>>, tool: bool) -> bool {
    match em {
        None => out is None,
        Some(text) => match out {
            Some(TokenClass::Narrative(s)) => !tool && s@ == text,
            Some(TokenClass::ToolCall(s)) => tool && s@ == text,
            _ => false,
        },
    }
}

/// `out` holds the spans `spans`, one for one.
pub open spec fn tokens_match(out: Seq<TokenClass>, spans: Seq<(Seq<char>, bool)>) -> bool {
    &&& out.len() == spans.len()
    &&& forall|k: int|
        0 <= k < out.len() ==> emitted_as(Some(#[trigger] out[k]), Some(spans[k].0), spans[k].1)
}

/// `calls` are the tool calls parsed from the texts `texts`, one for one.
pub open spec fn calls_match(calls: Seq<ToolCall>, texts: Seq<Seq<char>>) -> bool {
    &&& calls.len() == texts.len()
    &&& forall|k: int|
        0 <= k < calls.len() ==> (#[trigger] calls[k]).tool@ == tool_call_fields(texts[k])->0
            && calls[k].params == tool_call_params(texts[k])
}

fn exec_start_pos(s: &Vec<char>) -> (r: usize)
    ensures
        r as int == start_pos(s@),
{
    let k = exec_skip_space(s, 0);
    if k < s.len() && s[k] == '{' {
        return k;
    }
    let mut i: usize = 0;
    while i < s.len()
        invariant
            i <= s@.len(),
            !opens_with_brace(s@),
            first_marker(s@, i as int) == first_marker(s@, 0),
        decreases s@.len() - i,
    {
        if exec_marker_at(s, i) {
            assert(first_marker(s@, i as int) == i as int);
            return i;
        }
        i = i + 1;
    }
    assert(first_marker(s@, s@.len() as int) == s@.len() as int);
    s.len()
}

fn exec_first_close(s: &Vec<char>) -> (r: Option<usize>)
    ensures
        match r {
            Some(k) => first_close(s@) == Some(k as int),
            None => first_close(s@) is None,
        },
{
    let n = s.len();
    let mut j: usize = 0;
    while j < n
        invariant
            n == s@.len(),
            j <= n,
            first_close_from(s@, j + 1) == first_close(s@),
        decreases n - j,
    {
        if s[j] == '}' {
            let prefix = slice_chars(s, 0, j + 1);
            match calculate_brace_depth(&prefix) {
                Some(d) => {
                    if d == 0 {
                        return Some(j + 1);
                    }
                },
                None => {},
            }
        }
        j = j + 1;
    }
    assert(first_close_from(s@, n + 1) is None);
    None
}

fn parse_chars(v: &Vec<char>) -> (r: Option<ToolCall>)
    ensures
        r is Some <==> tool_call_fields(v@) is Some,
        r is Some ==> r->0.tool@ == tool_call_fields(v@)->0,
        r is Some ==> r->0.params == tool_call_params(v@),
{
    let text = string_from_chars(v);
    match parse_tool_call(text.as_str()) {
        Some((tool, params)) => Some(ToolCall { tool, params }),
        None => None,
    }
}

impl StreamingInterceptor {
    pub closed spec fn buffer_view(&self) -> Seq<char> {
        self.buffer@
    }

    pub closed spec fn state_view(&self) -> ParserState {
        self.state
    }

    pub closed spec fn max_buffer(&self) -> nat {
        self.max_buffer_size as nat
    }

    /// A classifier in the narrative state with an empty buffer that forces
    /// narrative out after 200 chars.
    pub fn new() -> (r: Self)
        ensures
            r.buffer_view() == Seq::<char>::empty(),
            r.state_view() == ParserState::Narrative,
            r.max_buffer() == DEFAULT_MAX_BUFFER,
    {
        Self::with_max_buffer_chars(DEFAULT_MAX_BUFFER)
    }

    /// A fresh classifier that forces narrative out after `max_buffer_chars`.
    pub fn with_max_buffer_chars(max_buffer_chars: usize) -> (r: Self)
        ensures
            r.buffer_view() == Seq::<char>::empty(),
            r.state_view() == ParserState::Narrative,
            r.max_buffer() == max_buffer_chars,
    {
        StreamingInterceptor {
            buffer: Vec::new(),
            state: ParserState::Narrative,
            max_buffer_size: max_buffer_chars,
        }
    }

    /// The current parser state.
    pub fn state(&self) -> (r: ParserState)
        ensures
            r == self.state_view(),
    {
        self.state
    }

    /// The number of chars held back in the buffer.
    pub fn buffered_len(&self) -> (r: usize)
        ensures
            r == self.buffer_view().len(),
    {
        self.buffer.len()
    }

    fn append_fragment(&mut self, token: &str)
        ensures
            final(self).buffer@ == old(self).buffer@ + token@,
            final(self).state == old(self).state,
            final(self).max_buffer_size == old(self).max_buffer_size,
    {
        let n = token.unicode_len();
        let mut i: usize = 0;
        while i < n
            invariant
                n == token@.len(),
                i <= n,
                self.buffer@ == old(self).buffer@ + token@.subrange(0, i as int),
                self.state == old(self).state,
                self.max_buffer_size == old(self).max_buffer_size,
            decreases n - i,
        {
            let c = token.get_char(i);
            self.buffer.push(c);
            assert(token@.subrange(0, i + 1) =~= token@.subrange(0, i as int).push(c));
            i = i + 1;
        }
        assert(token@.subrange(0, n as int) =~= token@);
    }

    /// Appends `token` to the buffer and applies the state table to the
    /// whole buffer; returns the spans to display and the tool calls
    /// recognised, in order.
    pub fn process_token(&mut self, token: &str) -> (out: StepOutput)
        ensures
            ({
                let v = step(
                    old(self).buffer_view(),
                    old(self).state_view(),
                    old(self).max_buffer(),
                    token@,
                );
                &&& final(self).buffer_view() == v.0
                &&& final(self).state_view() == v.1
                &&& final(self).max_buffer() == old(self).max_buffer()
                &&& tokens_match(out.tokens@, v.2)
                &&& calls_match(out.tool_calls@, v.3)
            }),
    {
        self.append_fragment(token);
        let ghost b0 = self.buffer@;
        let ghost s0 = self.state;
        let ghost max = self.max_buffer_size as nat;
        let mut tokens: Vec<TokenClass> = Vec::new();
        let mut calls: Vec<ToolCall> = Vec::new();
        let ghost mut spans: Seq<(Seq<char>, bool)> = Seq::empty();
        let ghost mut texts: Seq<Seq<char>> = Seq::empty();
        proof {
            let g = go(b0, s0, max);
            assert(spans + g.2 =~= g.2);
            assert(texts + g.3 =~= g.3);
        }
        loop
            invariant
                max == self.max_buffer_size as nat,
                self.max_buffer_size == old(self).max_buffer_size,
                go(b0, s0, max) == ({
                    let g = go(self.buffer@, self.state, max);
                    (g.0, g.1, spans + g.2, texts + g.3)
                }),
                tokens_match(tokens@, spans),
                calls_match(calls@, texts),
            ensures
                max == self.max_buffer_size as nat,
                self.max_buffer_size == old(self).max_buffer_size,
                go(b0, s0, max) == (self.buffer@, self.state, spans, texts),
                tokens_match(tokens@, spans),
                calls_match(calls@, texts),
            decreases self.buffer@.len(), rank(self.state),
        {
            let ghost b = self.buffer@;
            let ghost st = self.state;
            let ghost g = go(b, st, max);
            match self.state {
                ParserState::Narrative => {
                    if matches_tool_start(&self.buffer) {
                        let p = exec_start_pos(&self.buffer);
                        let n = self.buffer.len();
                        if 0 < p && p < n {
                            let head = slice_chars(&self.buffer, 0, p);
                            let rest = slice_chars(&self.buffer, p, n);
                            tokens.push(TokenClass::Narrative(string_from_chars(&head)));
                            proof {
                                let r = go(rest@, ParserState::MaybeToolStart, max);
                                assert(spans.push((head@, false)) + r.2 =~= spans + (seq![(head@, false)] + r.2));
                                spans = spans.push((head@, false));
                                assert forall|k: int| 0 <= k < tokens@.len() implies emitted_as(
                                    Some(#[trigger] tokens@[k]),
                                    Some(spans[k].0),
                                    spans[k].1,
                                ) by {}
                            }
                            self.buffer = rest;
                        }
                        self.state = ParserState::MaybeToolStart;
                    } else if self.buffer.len() > self.max_buffer_size || self.at_boundary() {
                        if self.buffer.len() > 0 {
                            tokens.push(TokenClass::Narrative(string_from_chars(&self.buffer)));
                            proof {
                                assert(spans.push((b, false)) =~= spans + seq![(b, false)]);
                                spans = spans.push((b, false));
                                assert forall|k: int| 0 <= k < tokens@.len() implies emitted_as(
                                    Some(#[trigger] tokens@[k]),
                                    Some(spans[k].0),
                                    spans[k].1,
                                ) by {}
                            }
                        } else {
                            assert(spans + Seq::<(Seq<char>, bool)>::empty() =~= spans);
                        }
                        self.buffer = Vec::new();
                        assert(texts + Seq::<Seq<char>>::empty() =~= texts);
                        break;
                    } else {
                        assert(spans + Seq::<(Seq<char>, bool)>::empty() =~= spans);
                        assert(texts + Seq::<Seq<char>>::empty() =~= texts);
                        break;
                    }
                },
                ParserState::MaybeToolStart => {
                    match calculate_brace_depth(&self.buffer) {
                        Some(d) => {
                            self.state = ParserState::InToolCall { brace_depth: d };
                        },
                        None => {
                            if self.buffer.len() > MAYBE_TOOL_LIMIT {
                                tokens.push(TokenClass::Narrative(string_from_chars(&self.buffer)));
                                proof {
                                    assert(spans.push((b, false)) =~= spans + seq![(b, false)]);
                                    spans = spans.push((b, false));
                                    assert forall|k: int| 0 <= k < tokens@.len() implies emitted_as(
                                        Some(#[trigger] tokens@[k]),
                                        Some(spans[k].0),
                                        spans[k].1,
                                    ) by {}
                                }
                                self.buffer = Vec::new();
                                self.state = ParserState::Narrative;
                            } else {
                                assert(spans + Seq::<(Seq<char>, bool)>::empty() =~= spans);
                            }
                            assert(texts + Seq::<Seq<char>>::empty() =~= texts);
                            break;
                        },
                    }
                },
                ParserState::InToolCall { brace_depth: prior } => {
                    let nd = match calculate_brace_depth(&self.buffer) {
                        Some(x) => x,
                        None => prior,
                    };
                    if nd != 0 {
                        self.state = ParserState::InToolCall { brace_depth: nd };
                        assert(spans + Seq::<(Seq<char>, bool)>::empty() =~= spans);
                        assert(texts + Seq::<Seq<char>>::empty() =~= texts);
                        break;
                    }
                    match parse_chars(&self.buffer) {
                        Some(call) => {
                            tokens.push(TokenClass::ToolCall(string_from_chars(&self.buffer)));
                            calls.push(call);
                            proof {
                                assert(spans.push((b, true)) =~= spans + seq![(b, true)]);
                                assert(texts.push(b) =~= texts + seq![b]);
                                spans = spans.push((b, true));
                                texts = texts.push(b);
                                assert forall|k: int| 0 <= k < tokens@.len() implies emitted_as(
                                    Some(#[trigger] tokens@[k]),
                                    Some(spans[k].0),
                                    spans[k].1,
                                ) by {}
                            }
                            self.buffer = Vec::new();
                            self.state = ParserState::AfterToolCall;
                            break;
                        },
                        None => {
                            let n = self.buffer.len();
                            let first = exec_first_close(&self.buffer);
                            let mut closed: Option<(usize, Vec<char>, ToolCall)> = None;
                            match first {
                                Some(k) => {
                                    if 0 < k && k < n {
                                        let head = slice_chars(&self.buffer, 0, k);
                                        match parse_chars(&head) {
                                            Some(call) => {
                                                closed = Some((k, head, call));
                                            },
                                            None => {},
                                        }
                                    }
                                },
                                None => {},
                            }
                            proof {
                                if closed is None {
                                    match first_close(b) {
                                        Some(k) => {
                                            assert(!(0 < k < b.len() && tool_call_fields(
                                                b.subrange(0, k),
                                            ) is Some));
                                        },
                                        None => {},
                                    }
                                } else {
                                    let t = closed->0;
                                    let k = t.0;
                                    assert(first_close(b) == Some(k as int));
                                    assert(t.1@ == b.subrange(0, k as int));
                                }
                            }
                            match closed {
                                Some((k, head, call)) => {
                                    let rest = slice_chars(&self.buffer, k, n);
                                    tokens.push(TokenClass::ToolCall(string_from_chars(&head)));
                                    calls.push(call);
                                    proof {
                                        let r = go(rest@, ParserState::AfterToolCall, max);
                                        assert(spans.push((head@, true)) + r.2 =~= spans + (seq![
                                            (head@, true),
                                        ] + r.2));
                                        assert(texts.push(head@) + r.3 =~= texts + (seq![head@]
                                            + r.3));
                                        spans = spans.push((head@, true));
                                        texts = texts.push(head@);
                                        assert forall|j: int| 0 <= j < tokens@.len() implies emitted_as(
                                            Some(#[trigger] tokens@[j]),
                                            Some(spans[j].0),
                                            spans[j].1,
                                        ) by {}
                                    }
                                    self.buffer = rest;
                                    self.state = ParserState::AfterToolCall;
                                },
                                None => {
                                    if n > 0 {
                                        tokens.push(TokenClass::Narrative(string_from_chars(&self.buffer)));
                                        proof {
                                            assert(spans.push((b, false)) =~= spans + seq![(b, false)]);
                                            spans = spans.push((b, false));
                                            assert forall|j: int| 0 <= j < tokens@.len() implies emitted_as(
                                                Some(#[trigger] tokens@[j]),
                                                Some(spans[j].0),
                                                spans[j].1,
                                            ) by {}
                                        }
                                    } else {
                                        assert(spans + Seq::<(Seq<char>, bool)>::empty() =~= spans);
                                    }
                                    self.buffer = Vec::new();
                                    self.state = ParserState::Narrative;
                                    assert(texts + Seq::<Seq<char>>::empty() =~= texts);
                                    break;
                                },
                            }
                        },
                    }
                },
                ParserState::AfterToolCall => {
                    if self.all_whitespace() {
                        assert(spans + Seq::<(Seq<char>, bool)>::empty() =~= spans);
                        assert(texts + Seq::<Seq<char>>::empty() =~= texts);
                        break;
                    } else if matches_tool_start(&self.buffer) {
                        self.state = ParserState::MaybeToolStart;
                    } else {
                        self.state = ParserState::Narrative;
                    }
                },
            }
        }
        StepOutput { tokens, tool_calls: calls }
    }

    fn at_boundary(&self) -> (r: bool)
        ensures
            r == ends_at_boundary(self.buffer@),
    {
        let n = self.buffer.len();
        (n >= 1 && self.buffer[n - 1] == '\n') || (n >= 2 && self.buffer[n - 2] == '.'
            && self.buffer[n - 1] == ' ')
    }

    fn all_whitespace(&self) -> (r: bool)
        ensures
            r == all_space(self.buffer@),
    {
        let mut i: usize = 0;
        while i < self.buffer.len()
            invariant
                i <= self.buffer@.len(),
                forall|j: int| 0 <= j < i ==> is_space(#[trigger] self.buffer@[j]),
            decreases self.buffer@.len() - i,
        {
            if !char_is_space(self.buffer[i]) {
                return false;
            }
            i = i + 1;
        }
        true
    }

    /// Ends the stream: emits what is left in the buffer, as a tool call if
    /// the stream ended inside one and as narrative otherwise.
    pub fn flush_buffer(&mut self) -> (r: Option<TokenClass>)
        ensures
            match flush_view(old(self).buffer_view(), old(self).state_view()) {
                None => r is None,
                Some((text, tool)) => emitted_as(r, Some(text), tool),
            },
            final(self).buffer_view() == Seq::<char>::empty(),
            final(self).state_view() == old(self).state_view(),
            final(self).max_buffer() == old(self).max_buffer(),
    {
        if self.buffer.len() == 0 {
            return None;
        }
        let text = string_from_chars(&self.buffer);
        self.buffer = Vec::new();
        match self.state {
            ParserState::InToolCall { .. } => Some(TokenClass::ToolCall(text)),
            _ => Some(TokenClass::Narrative(text)),
        }
    }
}

// ---------------------------------------------------------------------------
// Laws over whole fragment sequences.

/// The concatenation of a sequence of fragments.
pub open spec fn concat(frags: Seq<Seq<char>>) -> Seq<char>
    decreases frags.len(),
{
    if frags.len() == 0 {
        Seq::empty()
    } else {
        concat(frags.drop_last()) + frags.last()
    }
}

/// The concatenation of the texts of a sequence of spans.
pub open spec fn concat_spans(spans: Seq<(Seq<char>, bool)>) -> Seq<char>
    decreases spans.len(),
{
    if spans.len() == 0 {
        Seq::empty()
    } else {
        concat_spans(spans.drop_last()) + spans.last().0
    }
}

/// The number of spans that are parsed tool calls.
pub open spec fn tool_span_count(spans: Seq<(Seq<char>, bool)>) -> nat
    decreases spans.len(),
{
    if spans.len() == 0 {
        0
    } else {
        tool_span_count(spans.drop_last()) + if spans.last().1 {
            1nat
        } else {
            0nat
        }
    }
}

/// A fresh classifier with limit `max` fed `frags` in order.
pub open spec fn run(max: nat, frags: Seq<Seq<char>>) -> StepView
    decreases frags.len(),
{
    if frags.len() == 0 {
        (Seq::empty(), ParserState::Narrative, Seq::empty(), Seq::empty())
    } else {
        let prev = run(max, frags.drop_last());
        let v = step(prev.0, prev.1, max, frags.last());
        (v.0, v.1, prev.2 + v.2, prev.3 + v.3)
    }
}

/// No stretch of `s` parses as a tool-call object.
pub open spec fn holds_no_tool_call(s: Seq<char>) -> bool {
    forall|i: int, j: int|
        0 <= i <= j <= s.len() ==> #[trigger] tool_call_fields(s.subrange(i, j)) is None
}

proof fn lemma_concat_spans_add(a: Seq<(Seq<char>, bool)>, b: Seq<(Seq<char>, bool)>)
    ensures
        concat_spans(a + b) == concat_spans(a) + concat_spans(b),
        tool_span_count(a + b) == tool_span_count(a) + tool_span_count(b),
    decreases b.len(),
{
    if b.len() == 0 {
        assert(a + b =~= a);
        assert(concat_spans(a) + Seq::<char>::empty() =~= concat_spans(a));
    } else {
        lemma_concat_spans_add(a, b.drop_last());
        assert((a + b).drop_last() =~= a + b.drop_last());
        assert((a + b).last() == b.last());
    }
}

proof fn lemma_no_tool_suffix(s: Seq<char>, p: int)
    requires
        holds_no_tool_call(s),
        0 <= p <= s.len(),
    ensures
        holds_no_tool_call(s.subrange(p, s.len() as int)),
{
    let t = s.subrange(p, s.len() as int);
    assert forall|i: int, j: int| 0 <= i <= j <= t.len() implies #[trigger] tool_call_fields(
        t.subrange(i, j),
    ) is None by {
        assert(t.subrange(i, j) =~= s.subrange(p + i, p + j));
    }
}

proof fn lemma_single_span(x: (Seq<char>, bool))
    ensures
        concat_spans(seq![x]) == x.0,
        tool_span_count(seq![x]) == if x.1 {
            1nat
        } else {
            0nat
        },
{
    let one = seq![x];
    let e = Seq::<(Seq<char>, bool)>::empty();
    assert(one.len() == 1);
    assert(one.last() == x);
    assert(one.drop_last() =~= e);
    assert(concat_spans(e) == Seq::<char>::empty());
    assert(tool_span_count(e) == 0);
    assert(concat_spans(one) == concat_spans(one.drop_last()) + one.last().0);
    assert(Seq::<char>::empty() + x.0 =~= x.0);
}

proof fn lemma_after_span(span: (Seq<char>, bool), r: StepView)
    requires
        r.3.len() == tool_span_count(r.2),
    ensures
        concat_spans(after_span(span, r).2) + after_span(span, r).0 == span.0 + (concat_spans(r.2)
            + r.0),
        after_span(span, r).3.len() == tool_span_count(after_span(span, r).2),
        r.1 == after_span(span, r).1,
        r.0 == after_span(span, r).0,
        !span.1 && r.3.len() == 0 && (forall|k: int| 0 <= k < r.2.len() ==> !(#[trigger] r.2[k]).1)
            ==> after_span(span, r).3.len() == 0 && forall|k: int|
            0 <= k < after_span(span, r).2.len() ==> !(#[trigger] after_span(span, r).2[k]).1,
{
    lemma_single_span(span);
    lemma_concat_spans_add(seq![span], r.2);
    assert(span.0 + concat_spans(r.2) + r.0 =~= span.0 + (concat_spans(r.2) + r.0));
    let a = after_span(span, r).2;
    if !span.1 {
        assert forall|k: int| 0 <= k < a.len() && r.3.len() == 0 && (forall|j: int|
            0 <= j < r.2.len() ==> !(#[trigger] r.2[j]).1) implies !(#[trigger] a[k]).1 by {
            if k > 0 {
                assert(a[k] == r.2[k - 1]);
            }
        }
    }
}

proof fn lemma_narrative_all(b: Seq<char>, next: ParserState)
    ensures
        concat_spans(narrative_all(b, next).2) + narrative_all(b, next).0 == b,
        narrative_all(b, next).3.len() == tool_span_count(narrative_all(b, next).2),
        narrative_all(b, next).3.len() == 0,
        narrative_all(b, next).0.len() == 0,
        forall|k: int|
            0 <= k < narrative_all(b, next).2.len() ==> !(#[trigger] narrative_all(b, next).2[k]).1,
{
    assert(concat_spans(Seq::<(Seq<char>, bool)>::empty()) == Seq::<char>::empty());
    assert(Seq::<char>::empty() + b =~= b);
    if b.len() > 0 {
        lemma_single_span((b, false));
        assert(b + Seq::<char>::empty() =~= b);
    }
}

proof fn lemma_go_narrative(b: Seq<char>, max: nat)
    ensures
        go_facts(b, ParserState::Narrative, max),
    decreases b.len(), 4nat,
{
    assert(concat_spans(Seq::<(Seq<char>, bool)>::empty()) == Seq::<char>::empty());
    assert(Seq::<char>::empty() + b =~= b);
    if tool_start_match(b) {
        let p = start_pos(b);
        if 0 < p < b.len() {
            let rest = b.subrange(p, b.len() as int);
            let head = b.subrange(0, p);
            lemma_go(rest, ParserState::MaybeToolStart, max);
            lemma_after_span((head, false), go(rest, ParserState::MaybeToolStart, max));
            assert(head + rest =~= b);
            if holds_no_tool_call(b) {
                lemma_no_tool_suffix(b, p);
            }
        } else {
            lemma_go(b, ParserState::MaybeToolStart, max);
        }
    } else if b.len() > max || ends_at_boundary(b) {
        lemma_narrative_all(b, ParserState::Narrative);
    }
}

proof fn lemma_go_close(b: Seq<char>, prior: usize, max: nat)
    requires
        (match brace_depth(b) {
            Some(x) => x,
            None => prior as int,
        }) == 0,
    ensures
        go_facts(b, ParserState::InToolCall { brace_depth: prior }, max),
    decreases b.len(), 0nat,
{
    assert(concat_spans(Seq::<(Seq<char>, bool)>::empty()) == Seq::<char>::empty());
    assert(b.subrange(0, b.len() as int) =~= b);
    if tool_call_fields(b) is Some {
        lemma_single_span((b, true));
        assert(b + Seq::<char>::empty() =~= b);
    } else {
        match first_close(b) {
            Some(k) => {
                if 0 < k < b.len() && tool_call_fields(b.subrange(0, k)) is Some {
                    let rest = b.subrange(k, b.len() as int);
                    let head = b.subrange(0, k);
                    lemma_go(rest, ParserState::AfterToolCall, max);
                    lemma_after_span((head, true), go(rest, ParserState::AfterToolCall, max));
                    assert(head + rest =~= b);
                } else {
                    lemma_narrative_all(b, ParserState::Narrative);
                }
            },
            None => {
                lemma_narrative_all(b, ParserState::Narrative);
            },
        }
    }
}

/// The facts `lemma_go` gives about one application of the table.
pub open spec fn go_facts(b: Seq<char>, st: ParserState, max: nat) -> bool {
    &&& concat_spans(go(b, st, max).2) + go(b, st, max).0 == b
    &&& go(b, st, max).3.len() == tool_span_count(go(b, st, max).2)
    &&& go(b, st, max).1 is Narrative ==> go(b, st, max).0.len() <= max
    &&& holds_no_tool_call(b) ==> go(b, st, max).3.len() == 0 && forall|k: int|
        0 <= k < go(b, st, max).2.len() ==> !(#[trigger] go(b, st, max).2[k]).1
}

/// What the table does to a buffer: the emitted spans followed by the new
/// buffer are the old buffer; the tool channel gets one text per tool-call
/// span; a buffer left in the narrative state is within the limit; and a
/// buffer holding no tool-call object yields no tool call.
pub proof fn lemma_go(b: Seq<char>, st: ParserState, max: nat)
    ensures
        go_facts(b, st, max),
    decreases b.len(), 2 * rank(st) + 1,
{
    assert(concat_spans(Seq::<(Seq<char>, bool)>::empty()) == Seq::<char>::empty());
    assert(Seq::<char>::empty() + b =~= b);
    match st {
        ParserState::Narrative => {
            lemma_go_narrative(b, max);
        },
        ParserState::MaybeToolStart => match brace_depth(b) {
            Some(d) => {
                lemma_go(b, ParserState::InToolCall { brace_depth: d as usize }, max);
            },
            None => {
                if b.len() > MAYBE_TOOL_LIMIT {
                    lemma_narrative_all(b, ParserState::Narrative);
                }
            },
        },
        ParserState::InToolCall { brace_depth: prior } => {
            let nd = match brace_depth(b) {
                Some(x) => x,
                None => prior as int,
            };
            if nd == 0 {
                lemma_go_close(b, prior, max);
            }
        },
        ParserState::AfterToolCall => {
            if all_space(b) {
            } else if tool_start_match(b) {
                lemma_go(b, ParserState::MaybeToolStart, max);
            } else {
                lemma_go(b, ParserState::Narrative, max);
            }
        },
    }
}

/// The classifier loses and adds nothing: the spans emitted so far followed
/// by the buffer are the fragments received so far, and the tool channel
/// gets one text per tool-call span.
pub proof fn lemma_run_conserves(max: nat, frags: Seq<Seq<char>>)
    ensures
        concat_spans(run(max, frags).2) + run(max, frags).0 == concat(frags),
        run(max, frags).3.len() == tool_span_count(run(max, frags).2),
        holds_no_tool_call(concat(frags)) ==> run(max, frags).3.len() == 0 && forall|k: int|
            0 <= k < run(max, frags).2.len() ==> !(#[trigger] run(max, frags).2[k]).1,
    decreases frags.len(),
{
    if frags.len() == 0 {
        assert(concat_spans(Seq::<(Seq<char>, bool)>::empty()) == Seq::<char>::empty());
        assert(Seq::<char>::empty() + Seq::<char>::empty() =~= Seq::<char>::empty());
    } else {
        let pre = frags.drop_last();
        let f = frags.last();
        lemma_run_conserves(max, pre);
        let prev = run(max, pre);
        let b = prev.0 + f;
        lemma_go(b, prev.1, max);
        let v = go(b, prev.1, max);
        lemma_concat_spans_add(prev.2, v.2);
        let whole = concat(frags);
        assert(whole == concat(pre) + f);
        let e = concat_spans(prev.2);
        assert(whole =~= e + b);
        assert(concat_spans(prev.2 + v.2) + v.0 =~= e + (concat_spans(v.2) + v.0));
        if holds_no_tool_call(whole) {
            lemma_no_tool_suffix(whole, e.len() as int);
            assert(whole.subrange(e.len() as int, whole.len() as int) =~= b);
            assert(concat(pre) =~= whole.subrange(0, concat(pre).len() as int));
            assert forall|i: int, j: int| 0 <= i <= j <= concat(pre).len() implies
                #[trigger] tool_call_fields(concat(pre).subrange(i, j)) is None by {
                assert(concat(pre).subrange(i, j) =~= whole.subrange(i, j));
            }
            assert forall|k: int| 0 <= k < (prev.2 + v.2).len() implies !(#[trigger] (prev.2
                + v.2)[k]).1 by {
                if k < prev.2.len() {
                    assert((prev.2 + v.2)[k] == prev.2[k]);
                } else {
                    assert((prev.2 + v.2)[k] == v.2[k - prev.2.len()]);
                }
            }
        }
    }
}

/// Classifying text that holds no tool-call object loses and adds nothing:
/// no span is classified as a parsed tool call, and the emitted spans
/// followed by the residual buffer are exactly the input. The residual is
/// flushed as narrative unless the input ends inside an open `{`.
pub proof fn lemma_narrative_only(max: nat, frags: Seq<Seq<char>>)
    requires
        holds_no_tool_call(concat(frags)),
    ensures
        run(max, frags).3.len() == 0,
        forall|k: int| 0 <= k < run(max, frags).2.len() ==> !(#[trigger] run(max, frags).2[k]).1,
        concat_spans(run(max, frags).2) + run(max, frags).0 == concat(frags),
        !(run(max, frags).1 is InToolCall) ==> match flush_view(run(max, frags).0, run(max, frags).1) {
            None => true,
            Some((_, tool)) => !tool,
        },
{
    lemma_run_conserves(max, frags);
}

/// Every step conserves text, and keeps the buffer bounded: it never holds
/// more than the old buffer and the fragment, and in the narrative state
/// never more than the limit. So from a narrative buffer within the limit,
/// one step leaves at most the limit plus the fragment's length.
pub proof fn lemma_step_conserves(buf: Seq<char>, st: ParserState, max: nat, frag: Seq<char>)
    ensures
        concat_spans(step(buf, st, max, frag).2) + step(buf, st, max, frag).0 == buf + frag,
        step(buf, st, max, frag).0.len() <= buf.len() + frag.len(),
        step(buf, st, max, frag).1 is Narrative ==> step(buf, st, max, frag).0.len() <= max,
{
    lemma_go(buf + frag, st, max);
}

/// In the narrative state the buffer stays bounded: a step from a buffer of
/// at most `max` chars leaves at most `max` plus the fragment's length, and
/// at most `max` when it stays narrative.
pub proof fn lemma_narrative_buffer_bounded(buf: Seq<char>, max: nat, frag: Seq<char>)
    requires
        buf.len() <= max,
    ensures
        step(buf, ParserState::Narrative, max, frag).0.len() <= max + frag.len(),
        step(buf, ParserState::Narrative, max, frag).1 is Narrative ==> step(
            buf,
            ParserState::Narrative,
            max,
            frag,
        ).0.len() <= max,
{
    lemma_step_conserves(buf, ParserState::Narrative, max, frag);
}

} // verus!
