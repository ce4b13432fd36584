use vstd::prelude::*;
use vstd::string::*;

use crate::json::string_from_chars;
use crate::text::{chars_of, same_text};

verus! {

/// What an instrumentation event records, as far as the analysis reads it.
pub enum EventKind {
    ToolExecutionComplete { tool_name: String, success: bool },
    PromptEnhancementComplete,
    Other,
}

/// One instrumentation event: when it happened (milliseconds since the
/// epoch), what it was, and how long it took if that was measured.
pub struct EventRecord {
    pub timestamp_ms: u64,
    pub kind: EventKind,
    pub duration_ms: Option<u64>,
}

/// Call counts and timings of one tool.
#[derive(PartialEq, Eq, Structural, Clone, Copy, Debug)]
pub struct ToolStats {
    pub total_calls: usize,
    pub successful_calls: usize,
    pub total_duration_ms: u64,
    pub max_duration_ms: u64,
    pub min_duration_ms: u64,
}

impl Default for ToolStats {
    fn default() -> (r: Self)
        ensures
            r == zero_stats(),
    {
        ToolStats {
            total_calls: 0,
            successful_calls: 0,
            total_duration_ms: 0,
            max_duration_ms: 0,
            min_duration_ms: 0,
        }
    }
}

/// A set of recorded events to analyse.
pub struct LogAnalyzer {
    events: Vec<EventRecord>,
}

pub open spec fn zero_stats() -> ToolStats {
    ToolStats {
        total_calls: 0,
        successful_calls: 0,
        total_duration_ms: 0,
        max_duration_ms: 0,
        min_duration_ms: 0,
    }
}

/// `st` after one more completed call. Durations add up saturating at the
/// largest `u64`; the minimum starts from the zero of a fresh record.
pub open spec fn add_call(st: ToolStats, success: bool, duration: Option<u64>) -> ToolStats {
    let counted = ToolStats {
        total_calls: (st.total_calls + 1) as usize,
        successful_calls: if success {
            (st.successful_calls + 1) as usize
        } else {
            st.successful_calls
        },
        ..st
    };
    match duration {
        Some(d) => ToolStats {
            total_duration_ms: if counted.total_duration_ms + d > u64::MAX {
                u64::MAX
            } else {
                (counted.total_duration_ms + d) as u64
            },
            max_duration_ms: if d > counted.max_duration_ms {
                d
            } else {
                counted.max_duration_ms
            },
            min_duration_ms: if d < counted.min_duration_ms {
                d
            } else {
                counted.min_duration_ms
            },
            ..counted
        },
        None => counted,
    }
}

/// The name of the tool whose completion `e` records, if it records one.
pub open spec fn completed_tool(e: EventRecord) -> Option<Seq<char>> {
    match e.kind {
        EventKind::ToolExecutionComplete { tool_name, .. } => Some(tool_name@),
        _ => None,
    }
}

/// The statistics of tool `name` over `events`.
pub open spec fn stats_for(events: Seq<EventRecord>, name: Seq<char>) -> ToolStats
    decreases events.len(),
{
    if events.len() == 0 {
        zero_stats()
    } else {
        let prev = stats_for(events.drop_last(), name);
        let e = events.last();
        match e.kind {
            EventKind::ToolExecutionComplete { tool_name, success } => if tool_name@ == name {
                add_call(prev, success, e.duration_ms)
            } else {
                prev
            },
            _ => prev,
        }
    }
}

/// The names of the tools completed in `events`, each once, in the order
/// of their first completion.
pub open spec fn tool_names(events: Seq<EventRecord>) -> Seq<Seq<char>>
    decreases events.len(),
{
    if events.len() == 0 {
        Seq::empty()
    } else {
        let prev = tool_names(events.drop_last());
        match completed_tool(events.last()) {
            Some(n) => if prev.contains(n) {
                prev
            } else {
                prev.push(n)
            },
            None => prev,
        }
    }
}

/// The label of an event on the performance timeline.
pub open spec fn timeline_label(e: EventRecord) -> Seq<char> {
    match e.kind {
        EventKind::ToolExecutionComplete { tool_name, .. } => "Tool: "@ + tool_name@,
        EventKind::PromptEnhancementComplete => "Prompt Enhancement"@,
        EventKind::Other => "Other"@,
    }
}

/// The timed events of `events` as (timestamp, label, duration), in order.
pub open spec fn timeline(events: Seq<EventRecord>) -> Seq<(u64, Seq<char>, u64)>
    decreases events.len(),
{
    if events.len() == 0 {
        Seq::empty()
    } else {
        let prev = timeline(events.drop_last());
        let e = events.last();
        match e.duration_ms {
            Some(d) => prev.push((e.timestamp_ms, timeline_label(e), d)),
            None => prev,
        }
    }
}

proof fn lemma_calls_bounded(events: Seq<EventRecord>, name: Seq<char>)
    requires
        events.len() <= usize::MAX,
    ensures
        stats_for(events, name).total_calls <= events.len(),
        stats_for(events, name).successful_calls <= stats_for(events, name).total_calls,
    decreases events.len(),
{
    if events.len() > 0 {
        lemma_calls_bounded(events.drop_last(), name);
    }
}

proof fn lemma_unseen_is_zero(events: Seq<EventRecord>, name: Seq<char>)
    requires
        !tool_names(events).contains(name),
    ensures
        stats_for(events, name) == zero_stats(),
    decreases events.len(),
{
    if events.len() > 0 {
        let prev = tool_names(events.drop_last());
        match completed_tool(events.last()) {
            Some(n) => {
                if !prev.contains(n) {
                    assert(prev.push(n)[prev.len() as int] == n);
                    if n == name {
                        assert(tool_names(events).contains(name));
                    }
                    assert forall|k: int| 0 <= k < prev.len() implies prev[k] != name by {
                        assert(prev.push(n)[k] == prev[k]);
                    }
                }
            },
            None => {},
        }
        lemma_unseen_is_zero(events.drop_last(), name);
    }
}

proof fn lemma_names_distinct(events: Seq<EventRecord>)
    ensures
        forall|a: int, b: int|
            0 <= a < b < tool_names(events).len() ==> tool_names(events)[a] != tool_names(
                events,
            )[b],
    decreases events.len(),
{
    if events.len() > 0 {
        lemma_names_distinct(events.drop_last());
        let prev = tool_names(events.drop_last());
        match completed_tool(events.last()) {
            Some(n) => {
                if !prev.contains(n) {
                    assert forall|a: int, b: int|
                        0 <= a < b < prev.push(n).len() implies prev.push(n)[a] != prev.push(
                        n,
                    )[b] by {
                        if b == prev.len() {
                            assert(prev.push(n)[a] == prev[a]);
                        } else {
                            assert(prev.push(n)[a] == prev[a]);
                            assert(prev.push(n)[b] == prev[b]);
                        }
                    }
                }
            },
            None => {},
        }
    }
}

fn record_call(st: ToolStats, success: bool, duration: Option<u64>) -> (r: ToolStats)
    requires
        st.total_calls < usize::MAX,
        st.successful_calls <= st.total_calls,
    ensures
        r == add_call(st, success, duration),
{
    let mut out = st;
    out.total_calls = st.total_calls + 1;
    if success {
        out.successful_calls = st.successful_calls + 1;
    }
    match duration {
        Some(d) => {
            out.total_duration_ms = out.total_duration_ms.saturating_add(d);
            if d > out.max_duration_ms {
                out.max_duration_ms = d;
            }
            if d < out.min_duration_ms {
                out.min_duration_ms = d;
            }
        },
        None => {},
    }
    out
}

impl LogAnalyzer {
    pub closed spec fn events_view(&self) -> Seq<EventRecord> {
        self.events@
    }

    pub fn new(events: Vec<EventRecord>) -> (r: Self)
        ensures
            r.events_view() == events@,
    {
        LogAnalyzer { events }
    }

    /// Per tool, in the order tools first completed: the number of calls,
    /// of successful calls, and the total, largest and smallest durations.
    pub fn tool_execution_stats(&self) -> (r: Vec<(String, ToolStats)>)
        ensures
            r@.len() == tool_names(self.events_view()).len(),
            forall|k: int|
                0 <= k < r@.len() ==> (#[trigger] r@[k]).0@ == tool_names(self.events_view())[k]
                    && r@[k].1 == stats_for(self.events_view(), r@[k].0@),
    {
        let ghost evs = self.events@;
        let mut out: Vec<(String, ToolStats)> = Vec::new();
        let mut i: usize = 0;
        while i < self.events.len()
            invariant
                i <= evs.len(),
                evs == self.events@,
                out@.len() == tool_names(evs.take(i as int)).len(),
                forall|k: int|
                    0 <= k < out@.len() ==> (#[trigger] out@[k]).0@ == tool_names(
                        evs.take(i as int),
                    )[k] && out@[k].1 == stats_for(evs.take(i as int), out@[k].0@),
            decreases evs.len() - i,
        {
            let ghost pre = evs.take(i as int);
            let ghost next = evs.take(i + 1);
            proof {
                assert(next.drop_last() =~= pre);
                assert(next.last() == evs[i as int]);
            }
            let e = &self.events[i];
            match &e.kind {
                EventKind::ToolExecutionComplete { tool_name, success } => {
                    let mut j: usize = 0;
                    let mut found = false;
                    while j < out.len()
                        invariant_except_break
                            !found,
                        invariant
                            j <= out@.len(),
                            forall|k: int| 0 <= k < j ==> (#[trigger] out@[k]).0@ != tool_name@,
                        ensures
                            found ==> j < out@.len() && out@[j as int].0@ == tool_name@,
                            !found ==> j == out@.len(),
                        decreases out@.len() - j,
                    {
                        if same_text(out[j].0.as_str(), tool_name.as_str()) {
                            found = true;
                            break;
                        }
                        j = j + 1;
                    }
                    proof {
                        lemma_calls_bounded(pre, tool_name@);
                    }
                    if found {
                        let ghost names = tool_names(pre);
                        proof {
                            assert(names[j as int] == tool_name@);
                            assert(names.contains(tool_name@));
                            lemma_names_distinct(pre);
                        }
                        let st = out[j].1;
                        let updated = record_call(st, *success, e.duration_ms);
                        let name_copy = string_from_chars(&chars_of(out[j].0.as_str()));
                        let ghost before = out@;
                        out.set(j, (name_copy, updated));
                        proof {
                            assert(tool_names(next) == names);
                            assert forall|k: int| 0 <= k < out@.len() implies (#[trigger] out@[k]).0@
                                == tool_names(next)[k] && out@[k].1 == stats_for(next, out@[k].0@) by {
                                if k != j {
                                    assert(out@[k] == before[k]);
                                    assert(names[k] != names[j as int]);
                                }
                            }
                        }
                    } else {
                        proof {
                            assert forall|k: int| 0 <= k < tool_names(pre).len() implies tool_names(
                                pre,
                            )[k] != tool_name@ by {
                                assert(out@[k].0@ == tool_names(pre)[k]);
                            }
                            lemma_unseen_is_zero(pre, tool_name@);
                        }
                        let st = ToolStats::default();
                        let updated = record_call(st, *success, e.duration_ms);
                        let name_copy = string_from_chars(&chars_of(tool_name.as_str()));
                        let ghost before = out@;
                        out.push((name_copy, updated));
                        proof {
                            assert(!tool_names(pre).contains(tool_name@));
                            assert(tool_names(next) == tool_names(pre).push(tool_name@));
                            assert forall|k: int| 0 <= k < out@.len() implies (#[trigger] out@[k]).0@
                                == tool_names(next)[k] && out@[k].1 == stats_for(next, out@[k].0@) by {
                                if k < before.len() {
                                    assert(out@[k] == before[k]);
                                    assert(before[k].0@ != tool_name@);
                                }
                            }
                        }
                    }
                },
                _ => {
                    proof {
                        assert(tool_names(next) == tool_names(pre));
                        assert forall|k: int| 0 <= k < out@.len() implies (#[trigger] out@[k]).0@
                            == tool_names(next)[k] && out@[k].1 == stats_for(next, out@[k].0@) by {
                            assert(stats_for(next, out@[k].0@) == stats_for(pre, out@[k].0@));
                        }
                    }
                },
            }
            i = i + 1;
        }
        proof {
            assert(evs.take(evs.len() as int) =~= evs);
        }
        out
    }

    /// The timed events as (timestamp, label, duration), in order.
    pub fn performance_timeline(&self) -> (r: Vec<(u64, String, u64)>)
        ensures
            r@.map_values(|t: (u64, String, u64)| (t.0, t.1@, t.2)) == timeline(self.events_view()),
    {
        let ghost evs = self.events@;
        let mut out: Vec<(u64, String, u64)> = Vec::new();
        let mut i: usize = 0;
        while i < self.events.len()
            invariant
                i <= evs.len(),
                evs == self.events@,
                out@.map_values(|t: (u64, String, u64)| (t.0, t.1@, t.2)) == timeline(
                    evs.take(i as int),
                ),
            decreases evs.len() - i,
        {
            let ghost pre = evs.take(i as int);
            let ghost before = out@;
            proof {
                assert(evs.take(i + 1).drop_last() =~= pre);
                assert(evs.take(i + 1).last() == evs[i as int]);
            }
            let e = &self.events[i];
            match e.duration_ms {
                Some(d) => {
                    let label = match &e.kind {
                        EventKind::ToolExecutionComplete { tool_name, .. } => {
                            let mut v = chars_of("Tool: ");
                            let mut rest = chars_of(tool_name.as_str());
                            v.append(&mut rest);
                            string_from_chars(&v)
                        },
                        EventKind::PromptEnhancementComplete => String::from_str(
                            "Prompt Enhancement",
                        ),
                        EventKind::Other => String::from_str("Other"),
                    };
                    out.push((e.timestamp_ms, label, d));
                    proof {
                        assert(out@.map_values(|t: (u64, String, u64)| (t.0, t.1@, t.2))
                            =~= before.map_values(|t: (u64, String, u64)| (t.0, t.1@, t.2)).push(
                            (e.timestamp_ms, timeline_label(*e), d),
                        ));
                    }
                },
                None => {},
            }
            i = i + 1;
        }
        proof {
            assert(evs.take(evs.len() as int) =~= evs);
        }
        out
    }
}

} // verus!
