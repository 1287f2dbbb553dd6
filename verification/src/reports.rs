//! Text shown to the user: list titles, previews, report lines.
use vstd::prelude::*;
use crate::call::{call_views, ActionItem, CallView};
use crate::history::CallHistoryState;
use crate::live::{split_lines, text_lines, views_of};
use crate::sentences::{sentences_of, split_sentences, string_views};
use crate::text::{
    chars_of, decimal, string_from_chars, sub_chars, trim, trim_chars, u128_to_string,
    u64_to_string,
};

verus! {

/// At most the first `n` characters of `s`.
pub open spec fn first_chars(s: Seq<char>, n: nat) -> Seq<char> {
    if s.len() <= n { s } else { s.take(n as int) }
}

/// The first line of a text (empty when there is none), cut to `n`
/// characters.
pub open spec fn preview(s: Seq<char>, n: nat) -> Seq<char> {
    first_chars(if text_lines(s).len() > 0 { text_lines(s)[0] } else { Seq::empty() }, n)
}

/// The first line of a text, cut to `n` characters, as the call lists show
/// it.
pub fn first_line_preview(text: &str, n: usize) -> (r: String)
    ensures
        r@ == preview(text@, n as nat),
{
    let lines = split_lines(text);
    let first: Vec<char> = if lines.len() > 0 {
        proof {
            assert(views_of(lines@)[0] == lines@[0]@);
        }
        chars_of(lines[0].as_str())
    } else {
        Vec::new()
    };
    let k: usize = if first.len() <= n { first.len() } else { n };
    let head = sub_chars(&first, 0, k);
    proof {
        if first@.len() <= n {
            assert(first@.subrange(0, k as int) =~= first@);
        }
    }
    string_from_chars(head.as_slice())
}

/// Whole seconds of the calls' lengths, summed.
pub open spec fn total_seconds(calls: Seq<CallView>) -> nat
    decreases calls.len(),
{
    if calls.len() == 0 {
        0
    } else {
        total_seconds(calls.drop_last()) + (calls.last().duration_ms / 1000) as nat
    }
}

/// The title of the history list: shown and loaded counts when filtered,
/// else the count and the total length in hours and minutes when known.
pub open spec fn history_title_text(shown: nat, total: nat, filtered: bool, secs: nat) -> Seq<char> {
    if filtered {
        " Call History ("@ + decimal(shown) + "/"@ + decimal(total) + " calls, filtered) "@
    } else if secs > 0 {
        " Call History ("@ + decimal(shown) + " calls, "@ + decimal(secs / 3600) + "h "@ + decimal((secs % 3600) / 60)
            + "m total) "@
    } else {
        " Call History ("@ + decimal(shown) + ") "@
    }
}

/// The title of the history list.
pub fn history_title(hs: &CallHistoryState) -> (r: String)
    ensures
        r@ == history_title_text(
            hs.calls@.len(),
            hs.all_calls@.len(),
            hs.active_tags@.len() > 0,
            total_seconds(call_views(hs.calls@)),
        ),
{
    let ghost views = call_views(hs.calls@);
    let mut total: u128 = 0;
    let mut i: usize = 0;
    while i < hs.calls.len()
        invariant
            i <= hs.calls@.len(),
            views == call_views(hs.calls@),
            total == total_seconds(views.take(i as int)),
            total <= i * 0xffff_ffff_ffff_ffffu128,
        decreases hs.calls.len() - i,
    {
        proof {
            assert(views.take(i + 1).drop_last() =~= views.take(i as int));
            assert(views.take(i + 1).last() == hs.calls@[i as int]@);
            assert(i < 0x1_0000_0000_0000_0000u128);
        }
        total = total + (hs.calls[i].duration_ms / 1000) as u128;
        i = i + 1;
    }
    proof {
        assert(views.take(i as int) =~= views);
    }
    let shown = u64_to_string(hs.calls.len() as u64);
    let mut s = String::from_str(" Call History (");
    s.append(shown.as_str());
    if hs.active_tags.len() > 0 {
        let all = u64_to_string(hs.all_calls.len() as u64);
        s.append("/");
        s.append(all.as_str());
        s.append(" calls, filtered) ");
    } else if total > 0 {
        let h = u128_to_string(total / 3600);
        let m = u128_to_string((total % 3600) / 60);
        s.append(" calls, ");
        s.append(h.as_str());
        s.append("h ");
        s.append(m.as_str());
        s.append("m total) ");
    } else {
        s.append(") ");
    }
    s
}

/// Whether the answer to a deletion prompt confirms it: once trimmed, a
/// lone `y` in either case.
pub fn confirms_deletion(input: &str) -> (b: bool)
    ensures
        b == (trim(input@) == seq!['y'] || trim(input@) == seq!['Y']),
{
    let c = chars_of(input);
    let t = trim_chars(&c);
    let r = t.len() == 1 && (t[0] == 'y' || t[0] == 'Y');
    proof {
        if t@.len() == 1 {
            if t@[0] == 'y' {
                assert(t@ =~= seq!['y']);
            }
            if t@[0] == 'Y' {
                assert(t@ =~= seq!['Y']);
            }
        }
    }
    r
}

/// A length in milliseconds as hours and minutes, `"{h}h {m}m"`.
pub fn hours_minutes(total_ms: u128) -> (r: String)
    ensures
        r@ == decimal((total_ms / 1000 / 3600) as nat) + "h "@ + decimal(((total_ms / 1000) % 3600 / 60) as nat) + "m"@,
{
    let secs = total_ms / 1000;
    let mut s = u128_to_string(secs / 3600);
    s.append("h ");
    let m = u128_to_string(secs % 3600 / 60);
    s.append(m.as_str());
    s.append("m");
    s
}

/// The line of an action item: its description, then its assignee and its
/// deadline when known.
pub open spec fn action_text(a: ActionItem) -> Seq<char> {
    "  - "@ + a.description@ + (match a.assignee {
        Some(w) => " (@"@ + w@ + ")"@,
        None => Seq::empty(),
    }) + (match a.deadline {
        Some(d) => " — due "@ + d@,
        None => Seq::empty(),
    })
}

/// The line of an open action item: its description, then its assignee and
/// its deadline when known.
pub fn action_item_line(a: &ActionItem) -> (r: String)
    ensures
        r@ == action_text(*a),
{
    let mut s = String::from_str("  - ");
    s.append(a.description.as_str());
    match &a.assignee {
        Some(w) => {
            s.append(" (@");
            s.append(w.as_str());
            s.append(")");
        },
        None => {},
    }
    match &a.deadline {
        Some(d) => {
            s.append(" — due ");
            s.append(d.as_str());
        },
        None => {},
    }
    s
}

/// The progress line of batch analysis: the call's rank (from one), the
/// count and the call's id.
pub fn progress_line(index: usize, total: usize, call_id: &str) -> (r: String)
    requires
        index < usize::MAX,
    ensures
        r@ == "["@ + decimal((index + 1) as nat) + "/"@ + decimal(total as nat) + "] Analyzing "@ + call_id@ + "..."@,
{
    let mut s = String::from_str("[");
    let a = u64_to_string((index + 1) as u64);
    s.append(a.as_str());
    s.append("/");
    let b = u64_to_string(total as u64);
    s.append(b.as_str());
    s.append("] Analyzing ");
    s.append(call_id);
    s.append("...");
    s
}

/// A run of `n` copies of `c`.
pub open spec fn repeat_char(c: char, n: nat) -> Seq<char>
    decreases n,
{
    if n == 0 { Seq::empty() } else { repeat_char(c, (n - 1) as nat).push(c) }
}

/// The input-level meter: ten cells, the first `filled` of them full.
pub fn level_bar(filled: usize) -> (r: String)
    requires
        filled <= 10,
    ensures
        r@ == seq!['['] + repeat_char('█', filled as nat) + repeat_char('░', (10 - filled) as nat) + seq![']'],
{
    let mut v: Vec<char> = Vec::new();
    v.push('[');
    let mut i: usize = 0;
    while i < 10
        invariant
            i <= 10,
            filled <= 10,
            v@ == seq!['['] + (if i <= filled {
                repeat_char('█', i as nat)
            } else {
                repeat_char('█', filled as nat) + repeat_char('░', (i - filled) as nat)
            }),
        decreases 10 - i,
    {
        let ghost before = v@;
        if i < filled {
            v.push('█');
        } else {
            v.push('░');
        }
        proof {
            if i < filled {
                assert(v@ =~= seq!['['] + repeat_char('█', (i + 1) as nat));
            } else {
                assert(repeat_char('░', (i + 1 - filled) as nat) == repeat_char('░', (i - filled) as nat).push('░'));
                if i == filled {
                    assert(repeat_char('░', 0) =~= Seq::<char>::empty());
                }
                assert(v@ =~= seq!['['] + (repeat_char('█', filled as nat) + repeat_char('░', (i + 1 - filled) as nat)));
            }
        }
        i = i + 1;
    }
    v.push(']');
    proof {
        if filled == 10 {
            assert(repeat_char('░', 0) =~= Seq::<char>::empty());
            assert(v@ =~= seq!['['] + repeat_char('█', filled as nat) + repeat_char('░', (10 - filled) as nat) + seq![']']);
        } else {
            assert(v@ =~= seq!['['] + repeat_char('█', filled as nat) + repeat_char('░', (10 - filled) as nat) + seq![']']);
        }
    }
    string_from_chars(v.as_slice())
}

/// The sentences the speech player says, in order: those of the text,
/// trimmed, the empty ones left out.
pub fn speakable_sentences(text: &str) -> (r: Vec<String>)
    ensures
        string_views(r@) == sentences_of(text@).map_values(|s: Seq<char>| trim(s)).filter(|s: Seq<char>| s.len() > 0),
{
    let all = split_sentences(text);
    let ghost sv = sentences_of(text@);
    let ghost f = |s: Seq<char>| trim(s);
    let ghost keep = |s: Seq<char>| s.len() > 0;
    let mut r: Vec<String> = Vec::new();
    let mut i: usize = 0;
    while i < all.len()
        invariant
            i <= all@.len(),
            string_views(all@) == sv,
            f == (|s: Seq<char>| trim(s)),
            keep == (|s: Seq<char>| s.len() > 0),
            string_views(r@) == sv.take(i as int).map_values(f).filter(keep),
        decreases all.len() - i,
    {
        let c = chars_of(all[i].as_str());
        let t = trim_chars(&c);
        let ghost before = r@;
        proof {
            reveal(Seq::filter);
            assert(string_views(all@)[i as int] == all@[i as int]@);
            assert(sv.take(i + 1).map_values(f).drop_last() =~= sv.take(i as int).map_values(f));
            assert(sv.take(i + 1).map_values(f).last() == trim(all@[i as int]@));
        }
        if t.len() > 0 {
            r.push(string_from_chars(t.as_slice()));
            proof {
                assert(string_views(r@) =~= string_views(before).push(t@));
            }
        }
        i = i + 1;
    }
    proof {
        assert(sv.take(i as int) =~= sv);
    }
    r
}

} // verus!
