//! Aggregate statistics over calls, and the names calls are stored under.
use vstd::prelude::*;
use crate::call::{call_views, theme_pairs, Call, CallView, ThemeCount};
use crate::clock::{format_stamp, stamp_or_empty, DAY_STAMP};
use crate::ranking::{is_stable_desc_sort, sort_desc_by_key, stable_desc_by};
use crate::tags::{string_seq_views, tally, tally_strings};
use crate::text::{chars_of, ends_with, ends_with_chars};

verus! {

/// Milliseconds in a day.
pub const DAY_MS: i64 = 86_400_000;

/// Aggregate statistics over a set of calls.
pub struct CallStats {
    pub total_calls: usize,
    /// Sum of the calls' lengths, in milliseconds.
    pub total_duration_ms: u128,
    pub analyzed_count: usize,
    pub unanalyzed_count: usize,
    /// The five most frequent analysis themes, most frequent first.
    pub top_themes: Vec<ThemeCount>,
    pub calls_this_week: usize,
    pub calls_this_month: usize,
}

/// The sum of the calls' lengths in milliseconds.
pub open spec fn total_duration(calls: Seq<CallView>) -> nat
    decreases calls.len(),
{
    if calls.len() == 0 {
        0
    } else {
        total_duration(calls.drop_last()) + calls.last().duration_ms as nat
    }
}

/// How many calls started at or after `cutoff`.
pub open spec fn started_since(calls: Seq<CallView>, cutoff: int) -> nat
    decreases calls.len(),
{
    if calls.len() == 0 {
        0
    } else {
        started_since(calls.drop_last(), cutoff) + if calls.last().created_at_ms >= cutoff { 1nat } else { 0nat }
    }
}

/// How many calls have an analysis.
pub open spec fn analyzed(themes: Seq<Option<Vec<String>>>) -> nat
    decreases themes.len(),
{
    if themes.len() == 0 {
        0
    } else {
        analyzed(themes.drop_last()) + if themes.last() is Some { 1nat } else { 0nat }
    }
}

/// The themes of all analyses, in call order.
pub open spec fn theme_stream(themes: Seq<Option<Vec<String>>>) -> Seq<Seq<char>>
    decreases themes.len(),
{
    if themes.len() == 0 {
        Seq::empty()
    } else {
        theme_stream(themes.drop_last()) + match themes.last() {
            Some(v) => string_seq_views(v@),
            None => Seq::empty(),
        }
    }
}

/// The statistics of the calls, given the themes of each call's analysis
/// (`None` for a call without one) and the current time: totals, analysis
/// coverage, calls of the last 7 and 30 days, and the five most frequent
/// themes (a stable ranking, so themes counted equally keep the order in
/// which they first appear).
pub fn compute_stats(calls: &Vec<Call>, themes: &Vec<Option<Vec<String>>>, now_ms: i64) -> (s: CallStats)
    requires
        themes@.len() == calls@.len(),
    ensures
        s.total_calls == calls@.len(),
        s.total_duration_ms == total_duration(call_views(calls@)),
        s.analyzed_count == analyzed(themes@),
        s.unanalyzed_count == calls@.len() - analyzed(themes@),
        s.calls_this_week == started_since(call_views(calls@), now_ms - 7 * DAY_MS),
        s.calls_this_month == started_since(call_views(calls@), now_ms - 30 * DAY_MS),
        exists|ranked: Seq<(i128, Seq<char>)>|
            is_stable_desc_sort(tally(theme_stream(themes@)), ranked)
                && theme_pairs(s.top_themes@) == (if ranked.len() <= 5 { ranked } else { ranked.take(5) }),
{
    let week: i128 = now_ms as i128 - 7 * (DAY_MS as i128);
    let month: i128 = now_ms as i128 - 30 * (DAY_MS as i128);
    let ghost views = call_views(calls@);
    let mut total: u128 = 0;
    let mut in_week: usize = 0;
    let mut in_month: usize = 0;
    let mut done: usize = 0;
    let mut stream: Vec<String> = Vec::new();
    let mut i: usize = 0;
    while i < calls.len()
        invariant
            i <= calls@.len(),
            themes@.len() == calls@.len(),
            views == call_views(calls@),
            week == now_ms - 7 * DAY_MS,
            month == now_ms - 30 * DAY_MS,
            total == total_duration(views.take(i as int)),
            total <= i * 0xffff_ffff_ffff_ffffu128,
            in_week == started_since(views.take(i as int), week as int),
            in_month == started_since(views.take(i as int), month as int),
            in_week <= i,
            in_month <= i,
            done == analyzed(themes@.take(i as int)),
            done <= i,
            string_seq_views(stream@) == theme_stream(themes@.take(i as int)),
        decreases calls.len() - i,
    {
        let c = &calls[i];
        proof {
            assert(views.take(i + 1).drop_last() =~= views.take(i as int));
            assert(views.take(i + 1).last() == c@);
            assert(themes@.take(i + 1).drop_last() =~= themes@.take(i as int));
            assert(themes@.take(i + 1).last() == themes@[i as int]);
            assert(i < 0x1_0000_0000_0000_0000u128);
        }
        total = total + c.duration_ms as u128;
        if c.created_at_ms as i128 >= week {
            in_week = in_week + 1;
        }
        if c.created_at_ms as i128 >= month {
            in_month = in_month + 1;
        }
        match &themes[i] {
            Some(ts) => {
                done = done + 1;
                let mut j: usize = 0;
                let ghost before = string_seq_views(stream@);
                while j < ts.len()
                    invariant
                        j <= ts@.len(),
                        string_seq_views(stream@) == before + string_seq_views(ts@.take(j as int)),
                    decreases ts.len() - j,
                {
                    let ghost mid = stream@;
                    stream.push(ts[j].clone());
                    proof {
                        assert(string_seq_views(stream@) =~= string_seq_views(mid).push(ts@[j as int]@));
                        assert(string_seq_views(ts@.take(j + 1)) =~= string_seq_views(ts@.take(j as int)).push(ts@[j as int]@));
                    }
                    j = j + 1;
                }
                proof {
                    assert(ts@.take(j as int) =~= ts@);
                }
            },
            None => {},
        }
        i = i + 1;
    }
    proof {
        assert(views.take(i as int) =~= views);
        assert(themes@.take(i as int) =~= themes@);
    }
    let counted = tally_strings(&stream);
    let ghost tv = counted@;
    let sorted = sort_desc_by_key(counted);
    let ghost sv = sorted@;
    let n: usize = sorted.len();
    proof {
        let p = choose|p: Seq<int>| stable_desc_by(tv, sv, p);
        assert forall|k: int| 0 <= k < sv.len() implies 0 <= (#[trigger] sv[k]).0 <= usize::MAX by {
            assert(sv[k] == tv[p[k]]);
        }
    }
    let keep: usize = if n <= 5 { n } else { 5 };
    let mut top: Vec<ThemeCount> = Vec::new();
    let mut rest = sorted;
    let mut k: usize = 0;
    while k < keep
        invariant
            k <= keep <= n,
            n == sv.len(),
            rest@ == sv.skip(k as int),
            theme_pairs(top@) == sv.take(k as int).map_values(|x: (i128, String)| (x.0, x.1@)),
            forall|q: int| 0 <= q < sv.len() ==> 0 <= (#[trigger] sv[q]).0 <= usize::MAX,
        decreases keep - k,
    {
        let (count, theme) = rest.remove(0);
        proof {
            assert(sv[k as int] == (count, theme));
            assert((count as usize) as i128 == count);
        }
        let ghost before = top@;
        top.push(ThemeCount { theme, count: count as usize });
        proof {
            assert(theme_pairs(top@) =~= theme_pairs(before).push((count, theme@)));
            assert(sv.take(k + 1).map_values(|x: (i128, String)| (x.0, x.1@)) =~= sv.take(k as int).map_values(
                |x: (i128, String)| (x.0, x.1@),
            ).push((count, theme@)));
        }
        k = k + 1;
        proof {
            assert(rest@ =~= sv.skip(k as int));
        }
    }
    proof {
        let f = |x: (i128, String)| (x.0, x.1@);
        let p = choose|p: Seq<int>| stable_desc_by(tv, sv, p);
        assert(tv.map_values(f) == tally(theme_stream(themes@)));
        assert(stable_desc_by(tv.map_values(f), sv.map_values(f), p));
        let ranked = sv.map_values(f);
        assert(ranked.len() == sv.len());
        if ranked.len() <= 5 {
            assert(sv.take(k as int) =~= sv);
            assert(theme_pairs(top@) == ranked);
        } else {
            assert(sv.take(5).map_values(f) =~= ranked.take(5));
            assert(theme_pairs(top@) == ranked.take(5));
        }
        assert(is_stable_desc_sort(tally(theme_stream(themes@)), ranked));
        assert(theme_pairs(top@) == (if ranked.len() <= 5 { ranked } else { ranked.take(5) }));
    }
    CallStats {
        total_calls: calls.len(),
        total_duration_ms: total,
        analyzed_count: done,
        unanalyzed_count: calls.len() - done,
        top_themes: top,
        calls_this_week: in_week,
        calls_this_month: in_month,
    }
}

/// The name a call is stored under: its UTC date, a hyphen, its id, and the
/// `.json` extension.
pub fn call_file_name(call: &Call) -> (r: String)
    ensures
        r@ == stamp_or_empty(call.created_at_ms, DAY_STAMP@) + "-"@ + call.id@ + ".json"@,
{
    let mut s = format_stamp(call.created_at_ms, DAY_STAMP);
    s.append("-");
    s.append(call.id.as_str());
    s.append(".json");
    s
}

/// Whether a stored file, by the stem of its name, holds the call with the
/// given id: the stem ends with the id.
pub fn stem_matches(stem: &str, call_id: &str) -> (b: bool)
    ensures
        b == ends_with(stem@, call_id@),
{
    let s = chars_of(stem);
    let id = chars_of(call_id);
    ends_with_chars(&s, &id)
}

/// The calls ordered by start time, newest first; calls that started at the
/// same moment keep their order.
pub fn sort_newest_first(calls: Vec<Call>) -> (r: Vec<Call>)
    ensures
        is_stable_desc_sort(
            call_views(calls@).map_values(|c: CallView| (c.created_at_ms as i128, c)),
            call_views(r@).map_values(|c: CallView| (c.created_at_ms as i128, c)),
        ),
{
    let ghost input = call_views(calls@).map_values(|c: CallView| (c.created_at_ms as i128, c));
    let mut keyed: Vec<(i128, Call)> = Vec::new();
    let mut rest = calls;
    let ghost all = rest@;
    let n: usize = rest.len();
    let mut i: usize = 0;
    while rest.len() > 0
        invariant
            i + rest@.len() == n,
            all.len() == n,
            rest@ == all.skip(i as int),
            input == call_views(all).map_values(|c: CallView| (c.created_at_ms as i128, c)),
            keyed@.map_values(|x: (i128, Call)| (x.0, x.1@)) == input.take(i as int),
        decreases rest.len(),
    {
        proof {
            assert(i < n);
        }
        let c = rest.remove(0);
        proof {
            assert(all[i as int] == c);
        }
        let ghost before = keyed@;
        let ghost cv = c@;
        proof {
            assert(call_views(all)[i as int] == cv);
            assert(input[i as int] == (cv.created_at_ms as i128, cv));
        }
        keyed.push((c.created_at_ms as i128, c));
        proof {
            assert(keyed@.map_values(|x: (i128, Call)| (x.0, x.1@)) =~= before.map_values(|x: (i128, Call)| (x.0, x.1@)).push((cv.created_at_ms as i128, cv)));
            assert(input.take(i + 1) =~= input.take(i as int).push((cv.created_at_ms as i128, cv)));
            assert(keyed@.map_values(|x: (i128, Call)| (x.0, x.1@)) =~= input.take(i + 1));
        }
        i = i + 1;
        proof {
            assert(rest@ =~= all.skip(i as int));
        }
    }
    proof {
        assert(input.take(i as int) =~= input);
    }
    let ghost kv = keyed@;
    let sorted = sort_desc_by_key(keyed);
    let ghost sv = sorted@;
    let m: usize = sorted.len();
    let mut out: Vec<Call> = Vec::new();
    let mut rest2 = sorted;
    let mut j: usize = 0;
    while rest2.len() > 0
        invariant
            j + rest2@.len() == m,
            sv.len() == m,
            rest2@ == sv.skip(j as int),
            out@.len() == j,
            forall|q: int| 0 <= q < j ==> #[trigger] out@[q] == sv[q].1,
        decreases rest2.len(),
    {
        proof {
            assert(j < m);
        }
        let (_, c) = rest2.remove(0);
        proof {
            assert(sv[j as int].1 == c);
        }
        out.push(c);
        j = j + 1;
        proof {
            assert(rest2@ =~= sv.skip(j as int));
        }
    }
    proof {
        let f = |x: (i128, Call)| (x.0, x.1@);
        let p = choose|p: Seq<int>| stable_desc_by(kv, sv, p);
        let outv = call_views(out@).map_values(|c: CallView| (c.created_at_ms as i128, c));
        assert forall|q: int| 0 <= q < sv.len() implies (#[trigger] sv[q]).0 == sv[q].1.created_at_ms as i128 by {
            assert(sv[q] == kv[p[q]]);
            assert(kv.map_values(f)[p[q]] == input[p[q]]);
        }
        assert(outv =~= sv.map_values(f));
        assert(stable_desc_by(kv.map_values(f), sv.map_values(f), p));
        assert(kv.map_values(f) =~= input);
    }
    out
}

} // verus!
