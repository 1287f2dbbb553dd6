//! A stored call written out as a Markdown document.
use vstd::prelude::*;
use crate::call::{ActionItem, Call, CallAnalysis};
use crate::clock::{format_stamp, stamp_or_empty, MINUTE_STAMP};
use crate::prompts::joined;
use crate::reports::{action_item_line, action_text};
use crate::sentences::string_views;
use crate::text::{decimal, u64_to_string};

verus! {

/// A length in whole seconds as minutes and seconds, e.g. `1m 30s`.
pub open spec fn minutes_seconds(secs: nat) -> Seq<char> {
    decimal(secs / 60) + "m "@ + decimal(secs % 60) + "s"@
}

/// Each item on a line of its own, as a list entry.
pub open spec fn bullets(items: Seq<Seq<char>>) -> Seq<char>
    decreases items.len(),
{
    if items.len() == 0 {
        Seq::empty()
    } else {
        bullets(items.drop_last()) + "- "@ + items.last() + "\n"@
    }
}

/// Each action item on a line of its own.
pub open spec fn action_lines(items: Seq<ActionItem>) -> Seq<char>
    decreases items.len(),
{
    if items.len() == 0 {
        Seq::empty()
    } else {
        action_lines(items.drop_last()) + action_text(items.last()) + "\n"@
    }
}

/// A titled section, left out when it has no items.
pub open spec fn list_section(title: Seq<char>, items: Seq<Seq<char>>) -> Seq<char> {
    if items.len() == 0 { Seq::empty() } else { "\n## "@ + title + "\n\n"@ + bullets(items) }
}

/// The sections of an analysis: the summary, then the action items,
/// decisions and open questions that it has.
pub open spec fn analysis_markdown(a: CallAnalysis) -> Seq<char> {
    "\n## Summary\n\n"@ + a.summary@ + "\n"@
        + (if a.action_items@.len() == 0 {
            Seq::empty()
        } else {
            "\n## Action Items\n\n"@ + action_lines(a.action_items@)
        })
        + list_section("Decisions"@, string_views(a.decisions@))
        + list_section("Open Questions"@, string_views(a.open_questions@))
}

/// The title line with the call's date, then its length.
pub open spec fn header_markdown(c: Call) -> Seq<char> {
    "# Call — "@ + stamp_or_empty(c.created_at_ms, MINUTE_STAMP@) + "\n\n"@ + "**Duration:** "@
        + minutes_seconds((c.duration_ms / 1000) as nat) + "\n"@
}

/// A labelled line of items joined by commas, left out when there are none.
pub open spec fn joined_line(label: Seq<char>, items: Seq<Seq<char>>) -> Seq<char> {
    if items.len() == 0 { Seq::empty() } else { label + joined(items, ", "@) + "\n"@ }
}

/// A call as Markdown: a title with its date, its length, its participants
/// and tags when it has any, its analysis when one is given, then the
/// transcript.
pub open spec fn call_markdown(c: Call, a: Option<CallAnalysis>) -> Seq<char> {
    header_markdown(c) + joined_line("**Participants:** "@, string_views(c.participants@))
        + joined_line("**Tags:** "@, string_views(c.tags@)) + (match a {
        Some(a) => analysis_markdown(a),
        None => Seq::empty(),
    }) + "\n## Transcript\n\n"@ + c.transcript@ + "\n"@
}

/// Appends the items joined by `sep`.
fn append_joined(out: &mut String, items: &Vec<String>, sep: &str)
    ensures
        final(out)@ == old(out)@ + joined(string_views(items@), sep@),
{
    let ghost views = string_views(items@);
    let ghost base = out@;
    let mut i: usize = 0;
    while i < items.len()
        invariant
            i <= items@.len(),
            views == string_views(items@),
            out@ == base + joined(views.take(i as int), sep@),
        decreases items.len() - i,
    {
        proof {
            assert(views.take(i + 1).drop_last() =~= views.take(i as int));
            assert(views.take(i + 1).last() == items@[i as int]@);
        }
        if i > 0 {
            out.append(sep);
        }
        out.append(items[i].as_str());
        proof {
            if i == 0 {
                assert(views.take(1) =~= seq![items@[0]@]);
                assert(joined(views.take(0), sep@) =~= Seq::<char>::empty());
            }
            assert(out@ =~= base + joined(views.take(i + 1), sep@));
        }
        i = i + 1;
    }
    proof {
        assert(views.take(i as int) =~= views);
    }
}

/// Appends each item as a list entry.
fn append_bullets(out: &mut String, items: &Vec<String>)
    ensures
        final(out)@ == old(out)@ + bullets(string_views(items@)),
{
    let ghost views = string_views(items@);
    let ghost base = out@;
    let mut i: usize = 0;
    while i < items.len()
        invariant
            i <= items@.len(),
            views == string_views(items@),
            out@ == base + bullets(views.take(i as int)),
        decreases items.len() - i,
    {
        proof {
            assert(views.take(i + 1).drop_last() =~= views.take(i as int));
            assert(views.take(i + 1).last() == items@[i as int]@);
        }
        out.append("- ");
        out.append(items[i].as_str());
        out.append("\n");
        proof {
            assert(out@ =~= base + bullets(views.take(i + 1)));
        }
        i = i + 1;
    }
    proof {
        assert(views.take(i as int) =~= views);
    }
}

/// Appends a titled list, or nothing when the list is empty.
fn append_section(out: &mut String, title: &str, items: &Vec<String>)
    ensures
        final(out)@ == old(out)@ + list_section(title@, string_views(items@)),
{
    if items.len() > 0 {
        out.append("\n## ");
        out.append(title);
        out.append("\n\n");
        append_bullets(out, items);
        proof {
            assert(string_views(items@).len() > 0);
        }
    } else {
        proof {
            assert(string_views(items@).len() == 0);
        }
    }
}

/// Appends each action item on a line of its own.
fn append_action_lines(out: &mut String, items: &Vec<ActionItem>)
    ensures
        final(out)@ == old(out)@ + action_lines(items@),
{
    let ghost base = out@;
    let mut i: usize = 0;
    while i < items.len()
        invariant
            i <= items@.len(),
            out@ == base + action_lines(items@.take(i as int)),
        decreases items.len() - i,
    {
        proof {
            assert(items@.take(i + 1).drop_last() =~= items@.take(i as int));
            assert(items@.take(i + 1).last() == items@[i as int]);
        }
        let line = action_item_line(&items[i]);
        out.append(line.as_str());
        out.append("\n");
        proof {
            assert(out@ =~= base + action_lines(items@.take(i + 1)));
        }
        i = i + 1;
    }
    proof {
        assert(items@.take(i as int) =~= items@);
    }
}

/// Appends the title and length lines of a call.
fn append_header(out: &mut String, call: &Call)
    ensures
        final(out)@ == old(out)@ + header_markdown(*call),
{
    let ghost base = out@;
    out.append("# Call — ");
    let date = format_stamp(call.created_at_ms, MINUTE_STAMP);
    out.append(date.as_str());
    out.append("\n\n");
    out.append("**Duration:** ");
    let secs = call.duration_ms / 1000;
    let m = u64_to_string(secs / 60);
    let s = u64_to_string(secs % 60);
    out.append(m.as_str());
    out.append("m ");
    out.append(s.as_str());
    out.append("s");
    out.append("\n");
    proof {
        assert(out@ =~= base + header_markdown(*call));
    }
}

/// Appends a labelled line of items, or nothing when there are none.
fn append_joined_line(out: &mut String, label: &str, items: &Vec<String>)
    ensures
        final(out)@ == old(out)@ + joined_line(label@, string_views(items@)),
{
    let ghost base = out@;
    proof {
        assert(string_views(items@).len() == items@.len());
    }
    if items.len() > 0 {
        out.append(label);
        append_joined(out, items, ", ");
        out.append("\n");
        proof {
            assert(out@ =~= base + joined_line(label@, string_views(items@)));
        }
    } else {
        proof {
            assert(out@ =~= base + joined_line(label@, string_views(items@)));
        }
    }
}

/// Appends the sections of an analysis.
fn append_analysis(out: &mut String, a: &CallAnalysis)
    ensures
        final(out)@ == old(out)@ + analysis_markdown(*a),
{
    let ghost base = out@;
    out.append("\n## Summary\n\n");
    out.append(a.summary.as_str());
    out.append("\n");
    let ghost with_summary = out@;
    let ghost items = if a.action_items@.len() == 0 {
        Seq::<char>::empty()
    } else {
        "\n## Action Items\n\n"@ + action_lines(a.action_items@)
    };
    if a.action_items.len() > 0 {
        out.append("\n## Action Items\n\n");
        append_action_lines(out, &a.action_items);
    }
    proof {
        assert(out@ =~= with_summary + items);
    }
    append_section(out, "Decisions", &a.decisions);
    append_section(out, "Open Questions", &a.open_questions);
    proof {
        assert(out@ =~= base + analysis_markdown(*a));
    }
}

/// Writes a call, and its analysis when one is given, as Markdown.
pub fn export_call_markdown(call: &Call, analysis: Option<&CallAnalysis>) -> (r: String)
    ensures
        r@ == call_markdown(*call, match analysis {
            Some(a) => Some(*a),
            None => None,
        }),
{
    let mut out = String::new();
    append_header(&mut out, call);
    append_joined_line(&mut out, "**Participants:** ", &call.participants);
    append_joined_line(&mut out, "**Tags:** ", &call.tags);
    let ghost before = out@;
    match analysis {
        Some(a) => append_analysis(&mut out, a),
        None => {},
    }
    let ghost with_analysis = out@;
    out.append("\n## Transcript\n\n");
    out.append(call.transcript.as_str());
    out.append("\n");
    proof {
        let an = match analysis {
            Some(a) => Some(*a),
            None => None,
        };
        let part = match an {
            Some(a) => analysis_markdown(a),
            None => Seq::<char>::empty(),
        };
        assert(with_analysis =~= before + part);
        assert(out@ =~= call_markdown(*call, an));
    }
    out
}

} // verus!
