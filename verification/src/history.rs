//! The call-history browser: a filtered, navigable list of past calls.
use vstd::prelude::*;
use crate::call::{call_views, Call, CallView, ThemeCount};
use crate::tags::{collect_tags, tally, tag_stream};
use crate::ranking::is_stable_desc_sort;
use crate::call::theme_pairs;
use crate::text::{decimal, lowercase, to_lowercase, u64_to_string};

verus! {

/// Whether some tag of the call, lowercased, is among the active tags.
pub open spec fn has_active_tag(c: CallView, active: Seq<String>) -> bool {
    exists|i: int, j: int|
        0 <= i < c.tags.len() && 0 <= j < active.len() && #[trigger] active[j]@ == lowercase(#[trigger] c.tags[i]@)
}

/// The calls that the active tags let through: all of them when no tag is
/// active, else those with an active tag, in their original order.
pub open spec fn filter_by_tags(all: Seq<CallView>, active: Seq<String>) -> Seq<CallView> {
    if active.len() == 0 {
        all
    } else {
        all.filter(|c: CallView| has_active_tag(c, active))
    }
}

/// The strings of `v` are pairwise different.
pub open spec fn no_duplicates(v: Seq<String>) -> bool {
    forall|i: int, j: int| 0 <= i < j < v.len() ==> v[i]@ != v[j]@
}

/// Whether `v` holds a string with the given characters.
pub open spec fn holds(v: Seq<String>, s: Seq<char>) -> bool {
    exists|i: int| 0 <= i < v.len() && v[i]@ == s
}

/// The shown list, the full list, the cursor and the scroll position are as
/// they were.
pub open spec fn same_list(o: CallHistoryState, n: CallHistoryState) -> bool {
    &&& call_views(n.calls@) == call_views(o.calls@)
    &&& call_views(n.all_calls@) == call_views(o.all_calls@)
    &&& n.cursor == o.cursor
    &&& n.scroll_offset == o.scroll_offset
}

/// The active, available and analysed tags and ids are as they were.
pub open spec fn same_tags(o: CallHistoryState, n: CallHistoryState) -> bool {
    &&& n.active_tags@ == o.active_tags@
    &&& n.available_tags@ == o.available_tags@
    &&& n.analyzed_ids@ == o.analyzed_ids@
}

/// The tag popup is open or closed as it was, its cursor where it was.
pub open spec fn same_popup(o: CallHistoryState, n: CallHistoryState) -> bool {
    n.show_tag_filter == o.show_tag_filter && n.tag_cursor == o.tag_cursor
}

/// Nothing of the browser changed.
pub open spec fn unchanged(o: CallHistoryState, n: CallHistoryState) -> bool {
    same_list(o, n) && same_tags(o, n) && same_popup(o, n) && n.confirm_delete == o.confirm_delete
}

/// State of the call-history browser.
pub struct CallHistoryState {
    /// The calls shown, after filtering.
    pub calls: Vec<Call>,
    /// Every loaded call.
    pub all_calls: Vec<Call>,
    pub cursor: usize,
    pub scroll_offset: usize,
    /// Waiting for the user to confirm a deletion.
    pub confirm_delete: bool,
    /// Ids of the calls that have a stored analysis.
    pub analyzed_ids: Vec<String>,
    /// The tags the list is filtered by, lowercase, each once.
    pub active_tags: Vec<String>,
    /// Every tag in use, with its count.
    pub available_tags: Vec<ThemeCount>,
    /// Whether the tag filter popup is open.
    pub show_tag_filter: bool,
    /// Cursor in the tag filter popup.
    pub tag_cursor: usize,
}

impl CallHistoryState {
    /// A browser over the given calls: nothing filtered, cursor on the first
    /// call, and the tags in use tallied.
    pub fn new(calls: Vec<Call>) -> (s: Self)
        ensures
            call_views(s.calls@) == call_views(calls@),
            call_views(s.all_calls@) == call_views(calls@),
            s.cursor == 0,
            s.scroll_offset == 0,
            !s.confirm_delete,
            s.analyzed_ids@.len() == 0,
            s.active_tags@.len() == 0,
            is_stable_desc_sort(tally(tag_stream(call_views(calls@))), theme_pairs(s.available_tags@)),
            !s.show_tag_filter,
            s.tag_cursor == 0,
    {
        let available_tags = collect_tags(&calls);
        let all_calls = clone_calls(&calls);
        CallHistoryState {
            calls,
            all_calls,
            cursor: 0,
            scroll_offset: 0,
            confirm_delete: false,
            analyzed_ids: Vec::new(),
            active_tags: Vec::new(),
            available_tags,
            show_tag_filter: false,
            tag_cursor: 0,
        }
    }

    /// The same browser, with the ids of the analysed calls.
    pub fn with_analyzed_ids(self, ids: Vec<String>) -> (s: Self)
        ensures
            s.analyzed_ids@ == ids@,
            call_views(s.calls@) == call_views(self.calls@),
            call_views(s.all_calls@) == call_views(self.all_calls@),
            s.cursor == self.cursor,
            s.scroll_offset == self.scroll_offset,
            s.confirm_delete == self.confirm_delete,
            s.active_tags@ == self.active_tags@,
            s.show_tag_filter == self.show_tag_filter,
            s.tag_cursor == self.tag_cursor,
    {
        let mut s = self;
        s.analyzed_ids = ids;
        s
    }

    /// Moves the cursor one call up, scrolling the list so that the cursor
    /// stays visible.
    pub fn move_up(&mut self)
        ensures
            old(self).cursor > 0 ==> final(self).cursor == old(self).cursor - 1,
            old(self).cursor == 0 ==> final(self).cursor == 0,
            final(self).scroll_offset == if old(self).cursor > 0 && old(self).cursor - 1 < old(self).scroll_offset {
                (old(self).cursor - 1) as usize
            } else {
                old(self).scroll_offset
            },
            call_views(final(self).calls@) == call_views(old(self).calls@),
            call_views(final(self).all_calls@) == call_views(old(self).all_calls@),
            final(self).active_tags@ == old(self).active_tags@,
            final(self).confirm_delete == old(self).confirm_delete,
            final(self).available_tags@ == old(self).available_tags@,
            final(self).analyzed_ids@ == old(self).analyzed_ids@,
            final(self).show_tag_filter == old(self).show_tag_filter,
            final(self).tag_cursor == old(self).tag_cursor,
    {
        if self.cursor > 0 {
            self.cursor = self.cursor - 1;
            if self.cursor < self.scroll_offset {
                self.scroll_offset = self.cursor;
            }
        }
    }

    /// Moves the cursor one call down, stopping at the last call.
    pub fn move_down(&mut self)
        ensures
            final(self).cursor == if old(self).calls.len() > 0 && old(self).cursor < old(self).calls.len() - 1 {
                (old(self).cursor + 1) as usize
            } else {
                old(self).cursor
            },
            final(self).scroll_offset == old(self).scroll_offset,
            call_views(final(self).calls@) == call_views(old(self).calls@),
            call_views(final(self).all_calls@) == call_views(old(self).all_calls@),
            final(self).active_tags@ == old(self).active_tags@,
            final(self).confirm_delete == old(self).confirm_delete,
            final(self).available_tags@ == old(self).available_tags@,
            final(self).analyzed_ids@ == old(self).analyzed_ids@,
            final(self).show_tag_filter == old(self).show_tag_filter,
            final(self).tag_cursor == old(self).tag_cursor,
    {
        if self.calls.len() > 0 && self.cursor < self.calls.len() - 1 {
            self.cursor = self.cursor + 1;
        }
    }

    /// The call under the cursor, if any.
    pub fn selected(&self) -> (r: Option<&Call>)
        ensures
            match r {
                Some(c) => self.cursor < self.calls.len() && c@ == self.calls@[self.cursor as int]@,
                None => self.cursor >= self.calls.len(),
            },
    {
        if self.cursor < self.calls.len() {
            Some(&self.calls[self.cursor])
        } else {
            None
        }
    }

    /// Rebuilds the shown list from all calls and the active tags, keeps the
    /// cursor inside the list and scrolls back to the top.
    pub fn apply_filter(&mut self)
        ensures
            call_views(final(self).calls@) == filter_by_tags(call_views(old(self).all_calls@), old(self).active_tags@),
            final(self).cursor == if old(self).cursor >= final(self).calls.len() {
                if final(self).calls.len() == 0 { 0 } else { (final(self).calls.len() - 1) as usize }
            } else {
                old(self).cursor
            },
            final(self).scroll_offset == 0,
            call_views(final(self).all_calls@) == call_views(old(self).all_calls@),
            final(self).active_tags@ == old(self).active_tags@,
            final(self).confirm_delete == old(self).confirm_delete,
            final(self).show_tag_filter == old(self).show_tag_filter,
            final(self).tag_cursor == old(self).tag_cursor,
            final(self).available_tags@ == old(self).available_tags@,
            final(self).analyzed_ids@ == old(self).analyzed_ids@,
    {
        let filtered = if self.active_tags.len() == 0 {
            clone_calls(&self.all_calls)
        } else {
            filter_calls_by_tags(&self.all_calls, &self.active_tags)
        };
        self.calls = filtered;
        if self.cursor >= self.calls.len() {
            self.cursor = if self.calls.len() == 0 { 0 } else { self.calls.len() - 1 };
        }
        self.scroll_offset = 0;
    }

    /// Turns the lowercase form of `tag` on in the filter, or off when it is
    /// on, then re-applies the filter.
    pub fn toggle_tag(&mut self, tag: &str)
        requires
            no_duplicates(old(self).active_tags@),
        ensures
            no_duplicates(final(self).active_tags@),
            forall|s: Seq<char>| holds(final(self).active_tags@, s) <==> (if s == lowercase(tag@) {
                !holds(old(self).active_tags@, s)
            } else {
                holds(old(self).active_tags@, s)
            }),
            call_views(final(self).calls@) == filter_by_tags(call_views(old(self).all_calls@), final(self).active_tags@),
            final(self).cursor == if old(self).cursor >= final(self).calls.len() {
                if final(self).calls.len() == 0 { 0 } else { (final(self).calls.len() - 1) as usize }
            } else {
                old(self).cursor
            },
            final(self).scroll_offset == 0,
            call_views(final(self).all_calls@) == call_views(old(self).all_calls@),
            final(self).confirm_delete == old(self).confirm_delete,
            final(self).show_tag_filter == old(self).show_tag_filter,
            final(self).tag_cursor == old(self).tag_cursor,
            final(self).available_tags@ == old(self).available_tags@,
            final(self).analyzed_ids@ == old(self).analyzed_ids@,
    {
        let key = to_lowercase(tag);
        let mut k: usize = 0;
        let mut found = false;
        while k < self.active_tags.len()
            invariant_except_break
                k <= self.active_tags@.len(),
                !found,
                forall|m: int| 0 <= m < k ==> self.active_tags@[m]@ != key@,
            ensures
                found ==> k < self.active_tags@.len() && self.active_tags@[k as int]@ == key@,
                !found ==> forall|m: int| 0 <= m < self.active_tags@.len() ==> self.active_tags@[m]@ != key@,
            decreases self.active_tags.len() - k,
        {
            if self.active_tags[k] == key {
                found = true;
                break;
            }
            k = k + 1;
        }
        let ghost before = self.active_tags@;
        if found {
            self.active_tags.remove(k);
            proof {
                let after = self.active_tags@;
                assert forall|i: int, j: int| 0 <= i < j < after.len() implies after[i]@ != after[j]@ by {
                    let oi = if i < k { i } else { i + 1 };
                    let oj = if j < k { j } else { j + 1 };
                    assert(after[i] == before[oi]);
                    assert(after[j] == before[oj]);
                }
                assert forall|s: Seq<char>| holds(after, s) <==> (if s == key@ {
                    !holds(before, s)
                } else {
                    holds(before, s)
                }) by {
                    if holds(after, s) {
                        let i = choose|i: int| 0 <= i < after.len() && after[i]@ == s;
                        let oi = if i < k { i } else { i + 1 };
                        assert(after[i] == before[oi]);
                        assert(oi != k);
                    }
                    if s != key@ && holds(before, s) {
                        let i = choose|i: int| 0 <= i < before.len() && before[i]@ == s;
                        assert(i != k);
                        let ai = if i < k { i } else { i - 1 };
                        assert(after[ai] == before[i]);
                    }
                    if s == key@ {
                        assert(before[k as int]@ == s);
                    }
                }
            }
        } else {
            self.active_tags.push(key);
            proof {
                let after = self.active_tags@;
                assert forall|s: Seq<char>| holds(after, s) <==> (if s == lowercase(tag@) {
                    !holds(before, s)
                } else {
                    holds(before, s)
                }) by {
                    if holds(after, s) {
                        let i = choose|i: int| 0 <= i < after.len() && after[i]@ == s;
                        if i < before.len() {
                            assert(after[i] == before[i]);
                        }
                    }
                    if holds(before, s) {
                        let i = choose|i: int| 0 <= i < before.len() && before[i]@ == s;
                        assert(after[i] == before[i]);
                    }
                    if s == lowercase(tag@) {
                        assert(after[before.len() as int]@ == s);
                    }
                }
            }
        }
        self.apply_filter();
    }
}

/// A copy of a list of calls.
pub fn clone_calls(v: &Vec<Call>) -> (r: Vec<Call>)
    ensures
        call_views(r@) == call_views(v@),
{
    let mut r: Vec<Call> = Vec::new();
    let mut i: usize = 0;
    while i < v.len()
        invariant
            i <= v.len(),
            call_views(r@) == call_views(v@.take(i as int)),
        decreases v.len() - i,
    {
        let ghost before = r@;
        r.push(v[i].clone());
        proof {
            assert(call_views(r@) =~= call_views(before).push(v@[i as int]@));
            assert(call_views(v@.take(i + 1)) =~= call_views(v@.take(i as int)).push(v@[i as int]@));
        }
        i = i + 1;
    }
    proof {
        assert(v@.take(i as int) =~= v@);
    }
    r
}

/// Whether some tag of the call, lowercased, is among the active tags.
pub fn call_has_active_tag(call: &Call, active: &Vec<String>) -> (b: bool)
    ensures
        b == has_active_tag(call@, active@),
{
    let mut i: usize = 0;
    while i < call.tags.len()
        invariant
            i <= call.tags.len(),
            forall|a: int, j: int| 0 <= a < i && 0 <= j < active@.len() ==> active@[j]@ != lowercase(call.tags@[a]@),
        decreases call.tags.len() - i,
    {
        let lower = to_lowercase(call.tags[i].as_str());
        let mut j: usize = 0;
        while j < active.len()
            invariant
                j <= active@.len(),
                i < call.tags@.len(),
                lower@ == lowercase(call.tags@[i as int]@),
                forall|m: int| 0 <= m < j ==> active@[m]@ != lower@,
            decreases active.len() - j,
        {
            if active[j] == lower {
                proof {
                    assert(call@.tags[i as int] == call.tags@[i as int]);
                    assert(active@[j as int]@ == lowercase(call@.tags[i as int]@));
                }
                return true;
            }
            j = j + 1;
        }
        i = i + 1;
    }
    false
}

/// The calls that carry one of the active tags, in order.
pub fn filter_calls_by_tags(all: &Vec<Call>, active: &Vec<String>) -> (r: Vec<Call>)
    ensures
        call_views(r@) == call_views(all@).filter(|c: CallView| has_active_tag(c, active@)),
{
    let ghost pred = |c: CallView| has_active_tag(c, active@);
    let mut r: Vec<Call> = Vec::new();
    let mut i: usize = 0;
    while i < all.len()
        invariant
            i <= all.len(),
            pred == (|c: CallView| has_active_tag(c, active@)),
            call_views(r@) == call_views(all@.take(i as int)).filter(pred),
        decreases all.len() - i,
    {
        let ghost before = r@;
        proof {
            reveal(Seq::filter);
            assert(call_views(all@.take(i + 1)).drop_last() =~= call_views(all@.take(i as int)));
            assert(call_views(all@.take(i + 1)).last() == all@[i as int]@);
        }
        if call_has_active_tag(&all[i], active) {
            r.push(all[i].clone());
            proof {
                assert(call_views(r@) =~= call_views(before).push(all@[i as int]@));
            }
        }
        i = i + 1;
    }
    proof {
        assert(all@.take(i as int) =~= all@);
    }
    r
}

/// Whether a call started inside a period: at or after `from`, and before
/// `until`, each bound only where it is given (milliseconds since the epoch).
pub open spec fn in_period(c: CallView, from: Option<i64>, until: Option<i64>) -> bool {
    &&& (from matches Some(f) ==> c.created_at_ms >= f)
    &&& (until matches Some(u) ==> c.created_at_ms < u)
}

/// The calls that started inside a period, in order.
pub fn filter_calls_by_period(all: &Vec<Call>, from: Option<i64>, until: Option<i64>) -> (r: Vec<Call>)
    ensures
        call_views(r@) == call_views(all@).filter(|c: CallView| in_period(c, from, until)),
{
    let ghost pred = |c: CallView| in_period(c, from, until);
    let mut r: Vec<Call> = Vec::new();
    let mut i: usize = 0;
    while i < all.len()
        invariant
            i <= all.len(),
            pred == (|c: CallView| in_period(c, from, until)),
            call_views(r@) == call_views(all@.take(i as int)).filter(pred),
        decreases all.len() - i,
    {
        let ghost before = r@;
        proof {
            reveal(Seq::filter);
            assert(call_views(all@.take(i + 1)).drop_last() =~= call_views(all@.take(i as int)));
            assert(call_views(all@.take(i + 1)).last() == all@[i as int]@);
        }
        let t = all[i].created_at_ms;
        let after_start = match from {
            Some(f) => t >= f,
            None => true,
        };
        let before_end = match until {
            Some(u) => t < u,
            None => true,
        };
        if after_start && before_end {
            r.push(all[i].clone());
            proof {
                assert(call_views(r@) =~= call_views(before).push(all@[i as int]@));
            }
        }
        i = i + 1;
    }
    proof {
        assert(all@.take(i as int) =~= all@);
    }
    r
}

/// The first row the list shows: scrolled so that the cursor is on the
/// last of `visible` rows when it would fall below them.
pub fn visible_scroll(cursor: usize, scroll_offset: usize, visible: usize) -> (r: usize)
    requires
        visible > 0 || (cursor as int) < scroll_offset,
    ensures
        r == if cursor >= scroll_offset + visible {
            if cursor >= visible - 1 { (cursor - (visible - 1)) as usize } else { 0 }
        } else {
            scroll_offset
        },
{
    if (cursor as u128) >= (scroll_offset as u128) + (visible as u128) {
        let back = visible - 1;
        if cursor >= back {
            cursor - back
        } else {
            0
        }
    } else {
        scroll_offset
    }
}

/// A duration in whole seconds as minutes and two-digit seconds.
pub open spec fn duration_text(secs: nat) -> Seq<char> {
    let s = secs % 60;
    decimal(secs / 60) + seq![':'] + if s < 10 { seq!['0'] + decimal(s) } else { decimal(s) }
}

/// Formats a duration in whole seconds as `m:ss`.
pub fn format_duration(secs: u64) -> (r: String)
    ensures
        r@ == duration_text(secs as nat),
{
    let m = secs / 60;
    let s = secs % 60;
    let mut out = u64_to_string(m);
    out.append(":");
    if s < 10 {
        out.append("0");
    }
    let tail = u64_to_string(s);
    out.append(tail.as_str());
    proof {
        reveal_strlit(":");
        reveal_strlit("0");
    }
    out
}

} // verus!
