use vstd::prelude::*;

verus! {

/// Net nesting depth of `{`/`}` over `s`, counting only braces outside
/// double-quoted strings. `None` when the depth would drop below zero.
pub open spec fn brace_depth_from(s: Seq<char>, depth: int, in_string: bool, escape: bool) -> Option<int>
    decreases s.len(),
{
    if s.len() == 0 {
        Some(depth)
    } else if escape {
        brace_depth_from(s.drop_first(), depth, in_string, false)
    } else {
        let c = s[0];
        let (d, ins, esc) = if c == '\\' && in_string {
            (depth, in_string, true)
        } else if c == '"' {
            (depth, !in_string, false)
        } else if c == '{' && !in_string {
            (depth + 1, in_string, false)
        } else if c == '}' && !in_string {
            (depth - 1, in_string, false)
        } else {
            (depth, in_string, false)
        };
        if d < 0 {
            None
        } else {
            brace_depth_from(s.drop_first(), d, ins, esc)
        }
    }
}

pub open spec fn brace_depth(s: Seq<char>) -> Option<int> {
    brace_depth_from(s, 0, false, false)
}

/// Scans `buf` and returns its net brace depth, honouring quoted strings
/// and backslash escapes inside them; `None` when a `}` closes more than
/// was opened.
pub fn calculate_brace_depth(buf: &Vec<char>) -> (r: Option<usize>)
    ensures
        match r {
            Some(d) => brace_depth(buf@) == Some(d as int),
            None => brace_depth(buf@) is None,
        },
{
    let n = buf.len();
    let mut i: usize = 0;
    let mut depth: usize = 0;
    let mut in_string = false;
    let mut escape = false;
    assert(buf@.skip(0) =~= buf@);
    while i < n
        invariant
            n == buf@.len(),
            i <= n,
            depth <= i,
            brace_depth(buf@) == brace_depth_from(buf@.skip(i as int), depth as int, in_string, escape),
        decreases n - i,
    {
        let c = buf[i];
        proof {
            let rest = buf@.skip(i as int);
            assert(rest.drop_first() =~= buf@.skip(i + 1));
            assert(rest[0] == c);
        }
        if escape {
            escape = false;
        } else if c == '\\' && in_string {
            escape = true;
        } else if c == '"' {
            in_string = !in_string;
        } else if c == '{' && !in_string {
            depth = depth + 1;
        } else if c == '}' && !in_string {
            if depth == 0 {
                return None;
            }
            depth = depth - 1;
        }
        i = i + 1;
    }
    assert(buf@.skip(n as int).len() == 0);
    Some(depth)
}

} // verus!
