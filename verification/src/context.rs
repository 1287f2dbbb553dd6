//! The call-history context handed to the agent.
use vstd::prelude::*;
use crate::call::{call_views, Call, CallView};
use crate::clock::{format_stamp, stamp_or_empty, MINUTE_STAMP};
use crate::text::{chars_of, decimal, string_from_chars, sub_chars, u64_to_string};

verus! {

/// The agent's standing instructions.
pub const SYSTEM_PROMPT: &'static str = "You are SuperVox assistant. You help users understand their call history. Answer questions about past calls based on the context provided. Be concise and helpful. If you don't have enough information, say so.";

/// At most the first `n` items of `s`.
pub open spec fn prefix<A>(s: Seq<A>, n: nat) -> Seq<A> {
    if s.len() <= n { s } else { s.take(n as int) }
}

/// One call's block in the context: a header with its id, date and length
/// in whole seconds, then the first 200 characters of its transcript.
pub open spec fn context_entry(c: CallView) -> Seq<char> {
    "--- Call "@ + c.id + " ("@ + stamp_or_empty(c.created_at_ms, MINUTE_STAMP@) + ", "@
        + decimal((c.duration_ms / 1000) as nat) + "s) ---\n"@ + prefix(c.transcript, 200) + "\n\n"@
}

/// The blocks of the given calls, one after another.
pub open spec fn context_entries(calls: Seq<CallView>) -> Seq<char>
    decreases calls.len(),
{
    if calls.len() == 0 {
        Seq::empty()
    } else {
        context_entries(calls.drop_last()) + context_entry(calls.last())
    }
}

/// The context for a list of calls, most recent first: a notice when there
/// are none, else the blocks of the first ten.
pub open spec fn calls_context(calls: Seq<CallView>) -> Seq<char> {
    if calls.len() == 0 {
        "No past calls found."@
    } else {
        "Recent calls:\n\n"@ + context_entries(prefix(calls, 10))
    }
}

/// One call's block in the context.
fn context_entry_of(call: &Call) -> (r: String)
    ensures
        r@ == context_entry(call@),
{
    let mut s = String::from_str("--- Call ");
    s.append(call.id.as_str());
    s.append(" (");
    let date = format_stamp(call.created_at_ms, MINUTE_STAMP);
    s.append(date.as_str());
    s.append(", ");
    let secs = u64_to_string(call.duration_ms / 1000);
    s.append(secs.as_str());
    s.append("s) ---\n");
    let chars = chars_of(call.transcript.as_str());
    let n: usize = if chars.len() <= 200 { chars.len() } else { 200 };
    let head = sub_chars(&chars, 0, n);
    proof {
        if chars@.len() <= 200 {
            assert(chars@.subrange(0, n as int) =~= chars@);
        }
    }
    let head_s = string_from_chars(head.as_slice());
    s.append(head_s.as_str());
    s.append("\n\n");
    s
}

/// The context about past calls that the agent answers from, given the
/// calls most recent first.
pub fn build_calls_context(calls: &Vec<Call>) -> (r: String)
    ensures
        r@ == calls_context(call_views(calls@)),
{
    if calls.len() == 0 {
        return String::from_str("No past calls found.");
    }
    let mut s = String::from_str("Recent calls:\n\n");
    let n: usize = if calls.len() <= 10 { calls.len() } else { 10 };
    let ghost shown = prefix(call_views(calls@), 10);
    proof {
        assert(shown =~= call_views(calls@.take(n as int)));
    }
    let mut i: usize = 0;
    while i < n
        invariant
            i <= n <= calls@.len(),
            shown == call_views(calls@.take(n as int)),
            s@ == "Recent calls:\n\n"@ + context_entries(call_views(calls@.take(i as int))),
        decreases n - i,
    {
        let e = context_entry_of(&calls[i]);
        proof {
            assert(call_views(calls@.take(i + 1)).drop_last() =~= call_views(calls@.take(i as int)));
            assert(call_views(calls@.take(i + 1)).last() == calls@[i as int]@);
        }
        s.append(e.as_str());
        proof {
            assert(s@ =~= "Recent calls:\n\n"@ + context_entries(call_views(calls@.take(i + 1))));
        }
        i = i + 1;
    }
    s
}

/// The system message of an agent query: the standing instructions, then
/// the call-history context.
pub fn agent_system_message(calls_context: &str) -> (r: String)
    ensures
        r@ == SYSTEM_PROMPT@ + "\n\nCall history context:\n"@ + calls_context@,
{
    let mut s = String::from_str(SYSTEM_PROMPT);
    s.append("\n\nCall history context:\n");
    s.append(calls_context);
    s
}

} // verus!
