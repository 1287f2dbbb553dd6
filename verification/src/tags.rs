//! Tags across calls: the lowercase tag stream and its tally.
use vstd::prelude::*;
use crate::call::{call_views, theme_pairs, Call, CallView, ThemeCount};
use crate::ranking::{is_stable_desc_sort, sort_desc_by_key, stable_desc_by};
use crate::text::{lowercase, to_lowercase};

verus! {

/// The lowercase forms of a list of tags.
pub open spec fn lower_tags(tags: Seq<String>) -> Seq<Seq<char>> {
    tags.map_values(|t: String| lowercase(t@))
}

/// Every tag of every call, lowercased, in order.
pub open spec fn tag_stream(calls: Seq<CallView>) -> Seq<Seq<char>>
    decreases calls.len(),
{
    if calls.len() == 0 {
        Seq::empty()
    } else {
        tag_stream(calls.drop_last()) + lower_tags(calls.last().tags)
    }
}

/// The distinct items of `s`, in order of first appearance.
pub open spec fn first_seen(s: Seq<Seq<char>>) -> Seq<Seq<char>>
    decreases s.len(),
{
    if s.len() == 0 {
        Seq::empty()
    } else if first_seen(s.drop_last()).contains(s.last()) {
        first_seen(s.drop_last())
    } else {
        first_seen(s.drop_last()).push(s.last())
    }
}

/// How many times `t` occurs in `s`.
pub open spec fn occurrences(s: Seq<Seq<char>>, t: Seq<char>) -> nat
    decreases s.len(),
{
    if s.len() == 0 {
        0
    } else {
        occurrences(s.drop_last(), t) + if s.last() == t { 1nat } else { 0nat }
    }
}

/// Each distinct item of `s` with its number of occurrences, in order of
/// first appearance.
pub open spec fn tally(s: Seq<Seq<char>>) -> Seq<(i128, Seq<char>)> {
    first_seen(s).map_values(|t: Seq<char>| (occurrences(s, t) as i128, t))
}

/// The views of a list of strings.
pub open spec fn string_seq_views(v: Seq<String>) -> Seq<Seq<char>> {
    v.map_values(|s: String| s@)
}

/// Every tag of every call, lowercased, in order.
pub fn collect_tag_stream(calls: &Vec<Call>) -> (r: Vec<String>)
    ensures
        string_seq_views(r@) == tag_stream(call_views(calls@)),
{
    let mut r: Vec<String> = Vec::new();
    let mut i: usize = 0;
    while i < calls.len()
        invariant
            i <= calls.len(),
            string_seq_views(r@) == tag_stream(call_views(calls@.take(i as int))),
        decreases calls.len() - i,
    {
        let call = &calls[i];
        let ghost before = string_seq_views(r@);
        let mut j: usize = 0;
        while j < call.tags.len()
            invariant
                j <= call.tags.len(),
                string_seq_views(r@) == before + lower_tags(call.tags@.take(j as int)),
            decreases call.tags.len() - j,
        {
            let ghost mid = r@;
            r.push(to_lowercase(call.tags[j].as_str()));
            proof {
                assert(string_seq_views(r@) =~= string_seq_views(mid).push(lowercase(call.tags@[j as int]@)));
                assert(lower_tags(call.tags@.take(j + 1)) =~= lower_tags(call.tags@.take(j as int)).push(
                    lowercase(call.tags@[j as int]@),
                ));
                assert(before + lower_tags(call.tags@.take(j + 1)) =~= (before + lower_tags(
                    call.tags@.take(j as int),
                )).push(lowercase(call.tags@[j as int]@)));
            }
            j = j + 1;
        }
        proof {
            let cv = call_views(calls@.take(i + 1));
            assert(call.tags@.take(j as int) =~= call.tags@);
            assert(cv.drop_last() =~= call_views(calls@.take(i as int)));
            assert(cv.last() == calls@[i as int]@);
        }
        i = i + 1;
    }
    proof {
        assert(calls@.take(i as int) =~= calls@);
    }
    r
}

/// Counts each distinct item, in order of first appearance.
pub fn tally_strings(s: &Vec<String>) -> (r: Vec<(i128, String)>)
    ensures
        r@.map_values(|x: (i128, String)| (x.0, x.1@)) == tally(string_seq_views(s@)),
        forall|k: int| 0 <= k < r@.len() ==> 0 <= (#[trigger] r@[k]).0 <= usize::MAX,
{
    let ghost sv = string_seq_views(s@);
    let mut names: Vec<String> = Vec::new();
    let mut counts: Vec<usize> = Vec::new();
    let mut i: usize = 0;
    while i < s.len()
        invariant
            i <= s.len(),
            sv == string_seq_views(s@),
            names@.len() == counts@.len(),
            string_seq_views(names@) == first_seen(sv.take(i as int)),
            forall|k: int| 0 <= k < counts@.len() ==> counts@[k] == occurrences(sv.take(i as int), #[trigger] names@[k]@),
            forall|k: int| 0 <= k < counts@.len() ==> counts@[k] <= i,
        decreases s.len() - i,
    {
        let t = &s[i];
        let ghost pre = sv.take(i as int);
        let ghost now = sv.take(i + 1);
        proof {
            assert(now.drop_last() =~= pre);
            assert(now.last() == t@);
        }
        let mut k: usize = 0;
        let mut found = false;
        while k < names.len()
            invariant_except_break
                k <= names@.len(),
                !found,
                forall|m: int| 0 <= m < k ==> names@[m]@ != t@,
            ensures
                found ==> k < names@.len() && names@[k as int]@ == t@,
                !found ==> forall|m: int| 0 <= m < names@.len() ==> names@[m]@ != t@,
            decreases names.len() - k,
        {
            if names[k] == *t {
                found = true;
                break;
            }
            k = k + 1;
        }
        if found {
            let c = counts[k];
            counts.set(k, c + 1);
            proof {
                assert(string_seq_views(names@)[k as int] == t@);
                assert(first_seen(pre).contains(t@));
                lemma_first_seen_distinct(pre);
                assert forall|m: int| 0 <= m < counts@.len() implies counts@[m] == occurrences(now, #[trigger] names@[m]@) by {
                    if m != k {
                        assert(string_seq_views(names@)[m] == names@[m]@);
                        assert(names@[m]@ != t@);
                    }
                }
            }
        } else {
            let ghost old_names = names@;
            names.push(t.clone());
            counts.push(1);
            proof {
                assert forall|m: int| 0 <= m < first_seen(pre).len() implies first_seen(pre)[m] != t@ by {
                    assert(string_seq_views(old_names)[m] == old_names[m]@);
                }
                assert(!first_seen(pre).contains(t@));
                assert(string_seq_views(names@) =~= string_seq_views(old_names).push(t@));
                lemma_occurrences_absent(pre, t@);
                assert forall|m: int| 0 <= m < counts@.len() implies counts@[m] == occurrences(now, #[trigger] names@[m]@) by {
                    if m < old_names.len() {
                        assert(string_seq_views(old_names)[m] == old_names[m]@);
                        assert(old_names[m]@ != t@);
                    }
                }
            }
        }
        i = i + 1;
    }
    proof {
        assert(sv.take(i as int) =~= sv);
    }
    let mut r: Vec<(i128, String)> = Vec::new();
    let mut j: usize = 0;
    while j < names.len()
        invariant
            j <= names@.len(),
            names@.len() == counts@.len(),
            string_seq_views(names@) == first_seen(sv),
            forall|k: int| 0 <= k < counts@.len() ==> counts@[k] == occurrences(sv, #[trigger] names@[k]@),
            r@.map_values(|x: (i128, String)| (x.0, x.1@)) == tally(sv).take(j as int),
            r@.len() == j,
            forall|k: int| 0 <= k < r@.len() ==> 0 <= (#[trigger] r@[k]).0 <= usize::MAX,
        decreases names.len() - j,
    {
        let ghost before = r@;
        r.push((counts[j] as i128, names[j].clone()));
        proof {
            assert(string_seq_views(names@)[j as int] == names@[j as int]@);
            assert(tally(sv)[j as int] == (counts@[j as int] as i128, names@[j as int]@));
            assert(r@.map_values(|x: (i128, String)| (x.0, x.1@))[j as int] == (counts@[j as int] as i128, names@[j as int]@));
            assert(r@.map_values(|x: (i128, String)| (x.0, x.1@)) =~= tally(sv).take(j + 1));
        }
        j = j + 1;
    }
    proof {
        assert(tally(sv).take(j as int) =~= tally(sv));
    }
    r
}

/// Every tag used across the calls, lowercased, with the number of times it
/// is used, most used first; tags used equally often keep the order in which
/// they first appear.
pub fn collect_tags(calls: &Vec<Call>) -> (r: Vec<ThemeCount>)
    ensures
        is_stable_desc_sort(tally(tag_stream(call_views(calls@))), theme_pairs(r@)),
{
    let stream = collect_tag_stream(calls);
    let counted = tally_strings(&stream);
    let ghost tv = counted@;
    let sorted = sort_desc_by_key(counted);
    let ghost sv = sorted@;
    let n: usize = sorted.len();
    proof {
        let p = choose|p: Seq<int>| stable_desc_by(tv, sv, p);
        assert forall|k: int| 0 <= k < sv.len() implies 0 <= (#[trigger] sv[k]).0 <= usize::MAX by {
            assert(sv[k] == tv[p[k]]);
        }
    }
    let mut r: Vec<ThemeCount> = Vec::new();
    let mut i: usize = 0;
    let mut rest = sorted;
    while rest.len() > 0
        invariant
            i + rest@.len() == sv.len(),
            sv.len() == n,
            rest@ == sv.skip(i as int),
            theme_pairs(r@) == sv.take(i as int).map_values(|x: (i128, String)| (x.0, x.1@)),
            forall|k: int| 0 <= k < sv.len() ==> 0 <= (#[trigger] sv[k]).0 <= usize::MAX,
        decreases rest.len(),
    {
        proof {
            assert(i < sv.len());
        }
        let (count, theme) = rest.remove(0);
        proof {
            assert(sv[i as int] == (count, theme));
        }
        let ghost before = r@;
        r.push(ThemeCount { theme, count: count as usize });
        proof {
            assert(0 <= sv[i as int].0 <= usize::MAX);
            assert((count as usize) as i128 == count);
            assert(theme_pairs(r@) =~= theme_pairs(before).push((count, theme@)));
            assert(sv.take(i + 1).map_values(|x: (i128, String)| (x.0, x.1@)) =~= sv.take(i as int).map_values(
                |x: (i128, String)| (x.0, x.1@),
            ).push((count, theme@)));
        }
        i = i + 1;
        proof {
            assert(rest@ =~= sv.skip(i as int));
        }
    }
    proof {
        assert(sv.take(i as int) =~= sv);
        let p = choose|p: Seq<int>| stable_desc_by(tv, sv, p);
        let f = |x: (i128, String)| (x.0, x.1@);
        assert(tv.map_values(f) == tally(tag_stream(call_views(calls@))));
        assert(stable_desc_by(tv.map_values(f), sv.map_values(f), p));
    }
    r
}

/// The items of `first_seen` are distinct.
proof fn lemma_first_seen_distinct(s: Seq<Seq<char>>)
    ensures
        forall|i: int, j: int| 0 <= i < j < first_seen(s).len() ==> first_seen(s)[i] != first_seen(s)[j],
    decreases s.len(),
{
    if s.len() > 0 {
        let p = s.drop_last();
        lemma_first_seen_distinct(p);
        if !first_seen(p).contains(s.last()) {
            let f = first_seen(s);
            assert(f == first_seen(p).push(s.last()));
            assert forall|i: int, j: int| 0 <= i < j < f.len() implies f[i] != f[j] by {
                if j == f.len() - 1 {
                    assert(f[i] == first_seen(p)[i]);
                    if f[i] == f[j] {
                        assert(first_seen(p).contains(s.last()));
                    }
                } else {
                    assert(f[i] == first_seen(p)[i]);
                    assert(f[j] == first_seen(p)[j]);
                }
            }
        }
    }
}

/// An item never seen does not occur.
proof fn lemma_occurrences_absent(s: Seq<Seq<char>>, t: Seq<char>)
    requires
        !first_seen(s).contains(t),
    ensures
        occurrences(s, t) == 0,
    decreases s.len(),
{
    if s.len() > 0 {
        let p = s.drop_last();
        if first_seen(p).contains(s.last()) {
            lemma_occurrences_absent(p, t);
        } else {
            assert(first_seen(s) == first_seen(p).push(s.last()));
            assert(first_seen(s)[first_seen(p).len() as int] == s.last());
            if first_seen(p).contains(t) {
                let m = choose|m: int| 0 <= m < first_seen(p).len() && first_seen(p)[m] == t;
                assert(first_seen(s)[m] == t);
            }
            lemma_occurrences_absent(p, t);
        }
    }
}

} // verus!
