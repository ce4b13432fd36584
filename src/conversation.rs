use vstd::prelude::*;
use vstd::string::*;

use crate::classifier::ToolCall;

verus! {

/// Who wrote a message.
#[derive(PartialEq, Eq, Structural, Clone, Copy, Debug)]
pub enum Role {
    System,
    User,
    Assistant,
}

/// The outcome of one tool call, as kept in the history.
pub struct ToolResult {
    pub tool_name: String,
    pub success: bool,
    pub result: serde_json::Value,
}

/// One message of the conversation.
pub struct Message {
    pub role: Role,
    pub content: String,
    pub token_count: usize,
    pub tool_calls: Option<Vec<ToolCall>>,
    pub tool_results: Option<Vec<ToolResult>>,
}

/// Conversation history kept within a token budget.
pub struct ConversationManager {
    messages: Vec<Message>,
    max_context_tokens: usize,
    current_tokens: usize,
}

/// The sum of the token counts of `msgs`.
pub open spec fn token_sum(msgs: Seq<Message>) -> int
    decreases msgs.len(),
{
    if msgs.len() == 0 {
        0
    } else {
        token_sum(msgs.drop_last()) + msgs.last().token_count
    }
}

/// The index of the first message of `msgs` at or after `i` that is not a
/// system message.
pub open spec fn first_non_system(msgs: Seq<Message>, i: int) -> Option<int>
    decreases msgs.len() - i,
{
    if i < 0 || i >= msgs.len() {
        None
    } else if msgs[i].role != Role::System {
        Some(i)
    } else {
        first_non_system(msgs, i + 1)
    }
}

/// `msgs` after dropping the oldest non-system messages, one at a time,
/// while the total is over `max` and more than one message is left.
pub open spec fn trimmed_history(msgs: Seq<Message>, max: int) -> Seq<Message>
    decreases msgs.len(),
{
    if token_sum(msgs) > max && msgs.len() > 1 {
        match first_non_system(msgs, 0) {
            Some(p) => if 0 <= p < msgs.len() {
                trimmed_history(msgs.remove(p), max)
            } else {
                msgs
            },
            None => msgs,
        }
    } else {
        msgs
    }
}

/// The messages of `msgs` whose role is (`system`) or is not (`!system`)
/// `System`, in order.
pub open spec fn keep_system(msgs: Seq<Message>, system: bool) -> Seq<Message>
    decreases msgs.len(),
{
    if msgs.len() == 0 {
        Seq::empty()
    } else {
        let rest = keep_system(msgs.drop_first(), system);
        if (msgs[0].role == Role::System) == system {
            seq![msgs[0]] + rest
        } else {
            rest
        }
    }
}

pub open spec fn role_name(r: Role) -> Seq<char> {
    match r {
        Role::User => "User"@,
        Role::Assistant => "Assistant"@,
        Role::System => "System"@,
    }
}

/// The (role, text) pairs of the user and assistant messages, in order.
pub open spec fn history_pairs(msgs: Seq<Message>) -> Seq<(Seq<char>, Seq<char>)> {
    keep_system(msgs, false).map_values(|m: Message| (role_name(m.role), m.content@))
}

/// The tool calls and results of the messages that carry both, in order.
pub open spec fn tool_rounds(msgs: Seq<Message>) -> Seq<Message>
    decreases msgs.len(),
{
    if msgs.len() == 0 {
        Seq::empty()
    } else {
        let rest = tool_rounds(msgs.drop_first());
        if msgs[0].tool_calls is Some && msgs[0].tool_results is Some {
            seq![msgs[0]] + rest
        } else {
            rest
        }
    }
}

proof fn lemma_token_sum_concat(a: Seq<Message>, b: Seq<Message>)
    ensures
        token_sum(a + b) == token_sum(a) + token_sum(b),
    decreases b.len(),
{
    if b.len() == 0 {
        assert(a + b =~= a);
    } else {
        lemma_token_sum_concat(a, b.drop_last());
        assert((a + b).drop_last() =~= a + b.drop_last());
    }
}

proof fn lemma_keep_sum_le(msgs: Seq<Message>, system: bool)
    ensures
        0 <= token_sum(keep_system(msgs, system)) <= token_sum(msgs),
    decreases msgs.len(),
{
    if msgs.len() > 0 {
        lemma_keep_sum_le(msgs.drop_first(), system);
        assert(msgs =~= seq![msgs[0]] + msgs.drop_first());
        lemma_token_sum_concat(seq![msgs[0]], msgs.drop_first());
        lemma_token_sum_concat(seq![msgs[0]], keep_system(msgs.drop_first(), system));
        lemma_token_sum_push(Seq::empty(), msgs[0]);
        assert(seq![msgs[0]] =~= Seq::<Message>::empty().push(msgs[0]));
    }
}

/// The token estimate of a text: a quarter of its length in bytes.
pub open spec fn estimate_tokens(s: &str) -> int {
    (s.len() / 4) as int
}

proof fn lemma_token_sum_push(msgs: Seq<Message>, m: Message)
    ensures
        token_sum(msgs.push(m)) == token_sum(msgs) + m.token_count,
{
    assert(msgs.push(m).drop_last() =~= msgs);
}

proof fn lemma_token_sum_nonneg(msgs: Seq<Message>)
    ensures
        token_sum(msgs) >= 0,
    decreases msgs.len(),
{
    if msgs.len() > 0 {
        lemma_token_sum_nonneg(msgs.drop_last());
    }
}

proof fn lemma_token_sum_remove(msgs: Seq<Message>, p: int)
    requires
        0 <= p < msgs.len(),
    ensures
        token_sum(msgs.remove(p)) == token_sum(msgs) - msgs[p].token_count,
    decreases msgs.len(),
{
    if p == msgs.len() - 1 {
        assert(msgs.remove(p) =~= msgs.drop_last());
    } else {
        lemma_token_sum_remove(msgs.drop_last(), p);
        assert(msgs.remove(p).drop_last() =~= msgs.drop_last().remove(p));
        assert(msgs.remove(p).last() == msgs.last());
    }
}

proof fn lemma_first_non_system_bounds(msgs: Seq<Message>, i: int)
    requires
        0 <= i,
    ensures
        first_non_system(msgs, i) matches Some(p) ==> i <= p < msgs.len() && msgs[p].role
            != Role::System,
        first_non_system(msgs, i) is None ==> forall|k: int|
            i <= k < msgs.len() ==> (#[trigger] msgs[k]).role == Role::System,
    decreases msgs.len() - i,
{
    if i < msgs.len() && msgs[i].role == Role::System {
        lemma_first_non_system_bounds(msgs, i + 1);
    }
}

impl ConversationManager {
    pub closed spec fn history(&self) -> Seq<Message> {
        self.messages@
    }

    pub closed spec fn max_tokens(&self) -> int {
        self.max_context_tokens as int
    }

    /// The running token total matches the messages held.
    pub closed spec fn wf(&self) -> bool {
        self.current_tokens as int == token_sum(self.messages@)
    }

    /// An empty history with a budget of `max_context_tokens`.
    pub fn new(max_context_tokens: usize) -> (r: Self)
        ensures
            r.wf(),
            r.history().len() == 0,
            r.max_tokens() == max_context_tokens,
    {
        ConversationManager { messages: Vec::new(), max_context_tokens, current_tokens: 0 }
    }

    /// The total of the token counts of the messages held.
    pub fn current_tokens(&self) -> (r: usize)
        requires
            self.wf(),
        ensures
            r == token_sum(self.history()),
    {
        self.current_tokens
    }

    fn find_non_system(&self) -> (r: Option<usize>)
        ensures
            match r {
                Some(p) => first_non_system(self.messages@, 0) == Some(p as int),
                None => first_non_system(self.messages@, 0) is None,
            },
    {
        let mut i: usize = 0;
        while i < self.messages.len()
            invariant
                i <= self.messages@.len(),
                first_non_system(self.messages@, i as int) == first_non_system(self.messages@, 0),
            decreases self.messages@.len() - i,
        {
            if self.messages[i].role != Role::System {
                return Some(i);
            }
            i = i + 1;
        }
        None
    }

    fn trim_to_fit(&mut self)
        requires
            old(self).wf(),
        ensures
            final(self).wf(),
            final(self).messages@ == trimmed_history(old(self).messages@, old(self).max_context_tokens as int),
            final(self).max_context_tokens == old(self).max_context_tokens,
    {
        let ghost max = self.max_context_tokens as int;
        loop
            invariant
                self.wf(),
                self.max_context_tokens == old(self).max_context_tokens,
                max == self.max_context_tokens as int,
                trimmed_history(self.messages@, max) == trimmed_history(old(self).messages@, max),
            ensures
                trimmed_history(self.messages@, max) == self.messages@,
            decreases self.messages@.len(),
        {
            if !(self.current_tokens > self.max_context_tokens && self.messages.len() > 1) {
                assert(trimmed_history(self.messages@, max) == self.messages@);
                break;
            }
            match self.find_non_system() {
                Some(pos) => {
                    proof {
                        lemma_first_non_system_bounds(self.messages@, 0);
                        lemma_token_sum_remove(self.messages@, pos as int);
                        lemma_token_sum_nonneg(self.messages@.remove(pos as int));
                        assert(trimmed_history(self.messages@, max) == trimmed_history(
                            self.messages@.remove(pos as int),
                            max,
                        ));
                    }
                    let removed = self.messages.remove(pos);
                    self.current_tokens = self.current_tokens - removed.token_count;
                },
                None => {
                    assert(trimmed_history(self.messages@, max) == self.messages@);
                    break;
                },
            }
        }
    }

    fn add_message(
        &mut self,
        role: Role,
        content: &str,
        tool_calls: Option<Vec<ToolCall>>,
        tool_results: Option<Vec<ToolResult>>,
    )
        requires
            old(self).wf(),
            token_sum(old(self).history()) + estimate_tokens(content) <= usize::MAX,
        ensures
            final(self).wf(),
            final(self).max_tokens() == old(self).max_tokens(),
            exists|m: Message|
                #![trigger old(self).history().push(m)]
                m.role == role && m.content@ == content@ && m.token_count == estimate_tokens(
                    content,
                ) && m.tool_calls == tool_calls && m.tool_results == tool_results
                    && final(self).history() == trimmed_history(
                    old(self).history().push(m),
                    old(self).max_tokens(),
                ),
    {
        let token_count = content.len() / 4;
        let message = Message {
            role,
            content: String::from_str(content),
            token_count,
            tool_calls,
            tool_results,
        };
        let ghost m = message;
        proof {
            lemma_token_sum_push(self.messages@, message);
        }
        self.messages.push(message);
        self.current_tokens = self.current_tokens + token_count;
        self.trim_to_fit();
        assert(m.content@ == content@);
        assert(m.token_count == estimate_tokens(content));
        assert(self.history() == trimmed_history(old(self).history().push(m), old(self).max_tokens()));
    }

    fn retain_role(&mut self, system: bool)
        requires
            old(self).wf(),
        ensures
            final(self).wf(),
            final(self).messages@ == keep_system(old(self).messages@, system),
            final(self).max_context_tokens == old(self).max_context_tokens,
    {
        let mut rest: Vec<Message> = Vec::new();
        core::mem::swap(&mut self.messages, &mut rest);
        let ghost orig = rest@;
        proof {
            lemma_keep_sum_le(orig, system);
            assert(self.messages@ + keep_system(rest@, system) =~= keep_system(orig, system));
        }
        let mut total: usize = 0;
        while rest.len() > 0
            invariant
                self.messages@ + keep_system(rest@, system) == keep_system(orig, system),
                total as int == token_sum(self.messages@),
                token_sum(keep_system(orig, system)) <= usize::MAX,
                self.max_context_tokens == old(self).max_context_tokens,
            decreases rest@.len(),
        {
            let ghost before = rest@;
            let m = rest.remove(0);
            proof {
                assert(before.drop_first() =~= rest@);
                assert(before[0] == m);
            }
            if (m.role == Role::System) == system {
                proof {
                    lemma_token_sum_push(self.messages@, m);
                    assert(self.messages@.push(m) + keep_system(rest@, system) =~= self.messages@
                        + keep_system(before, system));
                    lemma_token_sum_concat(self.messages@.push(m), keep_system(rest@, system));
                    lemma_keep_sum_le(rest@, system);
                }
                total = total + m.token_count;
                self.messages.push(m);
            }
        }
        proof {
            assert(self.messages@ + keep_system(rest@, system) =~= self.messages@);
        }
        self.current_tokens = total;
    }

    /// Adds a user message, then drops the oldest non-system messages while
    /// the history is over budget.
    pub fn add_user_message(&mut self, content: &str)
        requires
            old(self).wf(),
            token_sum(old(self).history()) + estimate_tokens(content) <= usize::MAX,
        ensures
            final(self).wf(),
            final(self).max_tokens() == old(self).max_tokens(),
            exists|m: Message|
                #![trigger old(self).history().push(m)]
                m.role == Role::User && m.content@ == content@ && m.token_count == estimate_tokens(
                    content,
                ) && m.tool_calls is None && m.tool_results is None && final(self).history()
                    == trimmed_history(old(self).history().push(m), old(self).max_tokens()),
    {
        self.add_message(Role::User, content, None, None);
    }

    /// Adds an assistant message, then trims as `add_user_message` does.
    pub fn add_assistant_message(&mut self, content: &str)
        requires
            old(self).wf(),
            token_sum(old(self).history()) + estimate_tokens(content) <= usize::MAX,
        ensures
            final(self).wf(),
            final(self).max_tokens() == old(self).max_tokens(),
            exists|m: Message|
                #![trigger old(self).history().push(m)]
                m.role == Role::Assistant && m.content@ == content@ && m.token_count
                    == estimate_tokens(content) && m.tool_calls is None && m.tool_results is None
                    && final(self).history() == trimmed_history(
                    old(self).history().push(m),
                    old(self).max_tokens(),
                ),
    {
        self.add_message(Role::Assistant, content, None, None);
    }

    /// Adds an assistant message with the tool calls it made and their
    /// results, then trims as `add_user_message` does.
    pub fn add_assistant_message_with_tools(
        &mut self,
        content: &str,
        tool_calls: Vec<ToolCall>,
        tool_results: Vec<ToolResult>,
    )
        requires
            old(self).wf(),
            token_sum(old(self).history()) + estimate_tokens(content) <= usize::MAX,
        ensures
            final(self).wf(),
            final(self).max_tokens() == old(self).max_tokens(),
            exists|m: Message|
                #![trigger old(self).history().push(m)]
                m.role == Role::Assistant && m.content@ == content@ && m.token_count
                    == estimate_tokens(content) && m.tool_calls == Some(tool_calls)
                    && m.tool_results == Some(tool_results) && final(self).history()
                    == trimmed_history(old(self).history().push(m), old(self).max_tokens()),
    {
        self.add_message(Role::Assistant, content, Some(tool_calls), Some(tool_results));
    }

    /// Replaces any system message by one holding `content`, placed first.
    /// The history is not trimmed.
    pub fn add_system_message(&mut self, content: &str)
        requires
            old(self).wf(),
            token_sum(old(self).history()) + estimate_tokens(content) <= usize::MAX,
        ensures
            final(self).wf(),
            final(self).max_tokens() == old(self).max_tokens(),
            final(self).history().len() == keep_system(old(self).history(), false).len() + 1,
            final(self).history()[0].role == Role::System,
            final(self).history()[0].content@ == content@,
            final(self).history()[0].token_count == estimate_tokens(content),
            final(self).history().drop_first() == keep_system(old(self).history(), false),
    {
        let token_count = content.len() / 4;
        let message = Message {
            role: Role::System,
            content: String::from_str(content),
            token_count,
            tool_calls: None,
            tool_results: None,
        };
        self.retain_role(false);
        proof {
            lemma_keep_sum_le(old(self).messages@, false);
            lemma_token_sum_concat(seq![message], self.messages@);
            lemma_token_sum_push(Seq::empty(), message);
            assert(seq![message] =~= Seq::<Message>::empty().push(message));
        }
        let ghost kept = self.messages@;
        self.messages.insert(0, message);
        assert(self.messages@ =~= seq![message] + kept);
        assert(self.messages@.drop_first() =~= kept);
        self.current_tokens = self.current_tokens + token_count;
    }

    /// The user and assistant messages as (role, text) pairs, in order.
    pub fn get_conversation_history(&self) -> (r: Vec<(String, String)>)
        ensures
            r@.map_values(|p: (String, String)| (p.0@, p.1@)) == history_pairs(self.history()),
    {
        let mut out: Vec<(String, String)> = Vec::new();
        let mut i: usize = 0;
        let ghost msgs = self.messages@;
        proof {
            assert(msgs.skip(0) =~= msgs);
            assert(out@.map_values(|p: (String, String)| (p.0@, p.1@)) + history_pairs(msgs)
                =~= history_pairs(msgs));
        }
        while i < self.messages.len()
            invariant
                i <= msgs.len(),
                msgs == self.messages@,
                out@.map_values(|p: (String, String)| (p.0@, p.1@)) + history_pairs(
                    msgs.skip(i as int),
                ) == history_pairs(msgs),
            decreases msgs.len() - i,
        {
            let m = &self.messages[i];
            let ghost before = out@;
            proof {
                assert(msgs.skip(i as int).drop_first() =~= msgs.skip(i + 1));
                assert(msgs.skip(i as int)[0] == msgs[i as int]);
            }
            match m.role {
                Role::System => {},
                Role::User => {
                    out.push((String::from_str("User"), m.content.clone()));
                },
                Role::Assistant => {
                    out.push((String::from_str("Assistant"), m.content.clone()));
                },
            }
            proof {
                let f = |p: (String, String)| (p.0@, p.1@);
                let g = |m: Message| (role_name(m.role), m.content@);
                let ks = keep_system(msgs.skip(i as int), false);
                let ks1 = keep_system(msgs.skip(i + 1), false);
                if msgs[i as int].role != Role::System {
                    assert(ks =~= seq![msgs[i as int]] + ks1);
                    assert(ks.map_values(g) =~= seq![g(msgs[i as int])] + ks1.map_values(g));
                    assert(out@.map_values(f) =~= before.map_values(f).push(g(msgs[i as int])));
                    assert(out@.map_values(f) + ks1.map_values(g) =~= before.map_values(f)
                        + ks.map_values(g));
                } else {
                    assert(ks == ks1);
                }
            }
            i = i + 1;
        }
        proof {
            assert(msgs.skip(msgs.len() as int) =~= Seq::<Message>::empty());
            assert(history_pairs(Seq::<Message>::empty()) =~= Seq::<(Seq<char>, Seq<char>)>::empty());
            assert(out@.map_values(|p: (String, String)| (p.0@, p.1@)) + Seq::<(Seq<char>, Seq<char>)>::empty()
                =~= out@.map_values(|p: (String, String)| (p.0@, p.1@)));
        }
        out
    }

    /// The last `count` messages (all of them when fewer), oldest first.
    pub fn get_recent_messages(&self, count: usize) -> (r: Vec<&Message>)
        ensures
            r@.len() == if count < self.history().len() {
                count as int
            } else {
                self.history().len() as int
            },
            forall|k: int|
                0 <= k < r@.len() ==> *(#[trigger] r@[k]) == self.history()[self.history().len()
                    - r@.len() + k],
    {
        let n = self.messages.len();
        let start = if count < n {
            n - count
        } else {
            0
        };
        let mut out: Vec<&Message> = Vec::new();
        let mut i = start;
        while i < n
            invariant
                start <= i <= n,
                n == self.messages@.len(),
                out@.len() == i - start,
                forall|k: int| 0 <= k < out@.len() ==> *(#[trigger] out@[k]) == self.messages@[start + k],
            decreases n - i,
        {
            out.push(&self.messages[i]);
            i = i + 1;
        }
        out
    }

    /// Drops every message but the system messages.
    pub fn clear(&mut self)
        requires
            old(self).wf(),
        ensures
            final(self).wf(),
            final(self).max_tokens() == old(self).max_tokens(),
            final(self).history() == keep_system(old(self).history(), true),
    {
        self.retain_role(true);
    }

    /// The messages that carry tool calls and results, oldest first.
    pub fn get_tool_history(&self) -> (r: Vec<&Message>)
        ensures
            r@.map_values(|m: &Message| *m) == tool_rounds(self.history()),
    {
        let mut out: Vec<&Message> = Vec::new();
        let mut i: usize = 0;
        let ghost msgs = self.messages@;
        proof {
            assert(msgs.skip(0) =~= msgs);
            assert(out@.map_values(|m: &Message| *m) + tool_rounds(msgs) =~= tool_rounds(msgs));
        }
        while i < self.messages.len()
            invariant
                i <= msgs.len(),
                msgs == self.messages@,
                out@.map_values(|m: &Message| *m) + tool_rounds(msgs.skip(i as int)) == tool_rounds(msgs),
            decreases msgs.len() - i,
        {
            let m = &self.messages[i];
            let ghost before = out@;
            proof {
                assert(msgs.skip(i as int).drop_first() =~= msgs.skip(i + 1));
                assert(msgs.skip(i as int)[0] == msgs[i as int]);
            }
            if m.tool_calls.is_some() && m.tool_results.is_some() {
                out.push(m);
                proof {
                    assert(out@.map_values(|m: &Message| *m) =~= before.map_values(|m: &Message| *m).push(*m));
                    assert(out@.map_values(|m: &Message| *m) + tool_rounds(msgs.skip(i + 1))
                        =~= before.map_values(|m: &Message| *m) + tool_rounds(msgs.skip(i as int)));
                }
            }
            i = i + 1;
        }
        proof {
            assert(msgs.skip(msgs.len() as int) =~= Seq::<Message>::empty());
            assert(out@.map_values(|m: &Message| *m) + Seq::<Message>::empty() =~= out@.map_values(|m: &Message| *m));
        }
        out
    }
}

} // verus!
