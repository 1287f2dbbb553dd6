//! Full-text search over past calls.
use vstd::prelude::*;
use vstd::string::StringSliceAdditionalSpecFns;
use vstd::utf8::{encode_utf8, is_char_boundary, valid_utf8};
use crate::call::{call_views, Call, CallView};
use crate::ranking::{sort_desc_by_key, stable_desc_by, is_permutation};
use crate::text::{ascii_lowercase, is_ascii_text, lowercase, to_lowercase};
use vstd::string::StrSliceExecFns;

verus! {

/// Whether `n` occurs in `h` at byte `i`.
pub open spec fn occurs_at(h: Seq<u8>, n: Seq<u8>, i: int) -> bool {
    0 <= i && i + n.len() <= h.len() && h.subrange(i, i + n.len()) == n
}

/// The first byte at which `n` occurs in `h`.
pub open spec fn first_occurrence(h: Seq<u8>, n: Seq<u8>) -> Option<int> {
    if exists|i: int| occurs_at(h, n, i) {
        Some(choose|i: int| occurs_at(h, n, i) && forall|j: int| 0 <= j < i ==> !occurs_at(h, n, j))
    } else {
        None
    }
}

/// Non-overlapping occurrences of a non-empty `n` in `h` from byte `i` on,
/// taken leftmost first.
pub open spec fn count_from(h: Seq<u8>, n: Seq<u8>, i: int) -> nat
    decreases h.len() - i,
{
    if n.len() == 0 || i < 0 || i + n.len() > h.len() {
        0
    } else if occurs_at(h, n, i) {
        1 + count_from(h, n, i + n.len())
    } else {
        count_from(h, n, i + 1)
    }
}

/// How many times `str::matches` finds `q` in `t`: non-overlapping
/// occurrences, and for an empty `q` one per character boundary.
pub open spec fn match_count(t: Seq<char>, q: Seq<char>) -> nat {
    if q.len() == 0 {
        t.len() + 1
    } else {
        count_from(encode_utf8(t), encode_utf8(q), 0)
    }
}

/// A count held in a `usize`: counts past its range stay at its maximum.
pub open spec fn saturate(n: nat) -> nat {
    if n > usize::MAX { usize::MAX as nat } else { n }
}

/// A search hit, as mathematical values.
pub struct MatchView {
    pub call_id: Seq<char>,
    /// The UTF-8 bytes of the snippet.
    pub snippet: Seq<u8>,
    pub hits: nat,
    pub transcript_bytes: nat,
}

/// The byte range of the snippet around a hit at `pos`: up to 50 bytes
/// before it and 50 bytes after the query's length, within the transcript.
pub open spec fn snippet_range(pos: int, query_bytes: nat, transcript_bytes: nat) -> (int, int) {
    let start = if pos >= 50 { pos - 50 } else { 0 };
    let end = if pos + query_bytes + 50 <= transcript_bytes { pos + query_bytes + 50 } else { transcript_bytes as int };
    (start, end)
}

/// Where the query, lowercased, first occurs in the lowercased transcript.
pub open spec fn hit_position(c: CallView, query: Seq<char>) -> Option<int> {
    first_occurrence(encode_utf8(lowercase(c.transcript)), encode_utf8(lowercase(query)))
}

/// The last character boundary of `b` at or before byte `i`.
pub open spec fn boundary_down(b: Seq<u8>, i: int) -> int
    decreases i,
{
    if i <= 0 {
        0
    } else if is_char_boundary(b, i) {
        i
    } else {
        boundary_down(b, i - 1)
    }
}

/// The first character boundary of `b` at or after byte `i`, or its end.
pub open spec fn boundary_up(b: Seq<u8>, i: int) -> int
    decreases b.len() - i,
{
    if i >= b.len() {
        b.len() as int
    } else if is_char_boundary(b, i) {
        i
    } else {
        boundary_up(b, i + 1)
    }
}

/// The snippet's byte range in the transcript `b` around a hit at `pos`:
/// the range of `snippet_range` (its start not past its end), widened to
/// the nearest character boundaries, the start down and the end up.
pub open spec fn snippet_bounds(pos: int, query_bytes: nat, b: Seq<u8>) -> (int, int) {
    let (start, end) = snippet_range(pos, query_bytes, b.len());
    let s0 = if start <= end { start } else { end };
    (boundary_down(b, s0), boundary_up(b, end))
}

/// The widened range lies on character boundaries, in order, inside the
/// text.
proof fn lemma_snippet_bounds(pos: int, query_bytes: nat, chars: Seq<char>)
    requires
        pos >= 0,
    ensures
        ({
            let b = encode_utf8(chars);
            let (s, e) = snippet_bounds(pos, query_bytes, b);
            &&& 0 <= s <= e <= b.len()
            &&& is_char_boundary(b, s)
            &&& is_char_boundary(b, e)
        }),
{
    let b = encode_utf8(chars);
    vstd::utf8::encode_utf8_valid_utf8(chars);
    vstd::utf8::is_char_boundary_start_end_of_seq(b);
    let (start, end) = snippet_range(pos, query_bytes, b.len());
    let s0 = if start <= end { start } else { end };
    lemma_boundary_down(b, s0);
    lemma_boundary_up(b, end);
}

/// The boundary below lies between 0 and `i` and is a boundary.
proof fn lemma_boundary_down(b: Seq<u8>, i: int)
    requires
        i >= 0,
        vstd::utf8::valid_utf8(b),
    ensures
        0 <= boundary_down(b, i) <= i,
        is_char_boundary(b, boundary_down(b, i)),
    decreases i,
{
    if i > 0 && !is_char_boundary(b, i) {
        lemma_boundary_down(b, i - 1);
    }
}

/// The boundary above lies between `i` and the end and is a boundary.
proof fn lemma_boundary_up(b: Seq<u8>, i: int)
    requires
        0 <= i <= b.len(),
        vstd::utf8::valid_utf8(b),
    ensures
        i <= boundary_up(b, i) <= b.len(),
        is_char_boundary(b, boundary_up(b, i)),
    decreases b.len() - i,
{
    vstd::utf8::is_char_boundary_start_end_of_seq(b);
    if i < b.len() && !is_char_boundary(b, i) {
        lemma_boundary_up(b, i + 1);
    }
}

/// The hit for one call, if the query occurs in it (case-insensitively).
pub open spec fn match_of(c: CallView, query: Seq<char>) -> Option<MatchView> {
    match hit_position(c, query) {
        None => None,
        Some(pos) => {
            let (start, end) = snippet_bounds(pos, encode_utf8(query).len(), encode_utf8(c.transcript));
            Some(MatchView {
                call_id: c.id,
                snippet: encode_utf8(c.transcript).subrange(start, end),
                hits: saturate(match_count(lowercase(c.transcript), lowercase(query))),
                transcript_bytes: encode_utf8(c.transcript).len(),
            })
        },
    }
}

/// The hits of the calls, in call order.
pub open spec fn hits_in_order(calls: Seq<CallView>, query: Seq<char>) -> Seq<MatchView>
    decreases calls.len(),
{
    if calls.len() == 0 {
        Seq::empty()
    } else {
        let before = hits_in_order(calls.drop_last(), query);
        match match_of(calls.last(), query) {
            Some(m) => before.push(m),
            None => before,
        }
    }
}

/// Whether hit `a` scores lower than hit `b`: `a.hits / max(a.len, 1)` is
/// below `b.hits / max(b.len, 1)`.
pub open spec fn scores_below(a: MatchView, b: MatchView) -> bool {
    a.hits * denominator(b) < b.hits * denominator(a)
}

/// The relevance denominator: the transcript's length in bytes, at least 1.
pub open spec fn denominator(m: MatchView) -> nat {
    if m.transcript_bytes == 0 { 1 } else { m.transcript_bytes }
}

/// `out` is `input` ordered by relevance, best first, hits of equal
/// relevance in input order.
pub open spec fn ranked_by_score(input: Seq<MatchView>, out: Seq<MatchView>) -> bool {
    exists|p: Seq<int>| {
        &&& out.len() == input.len()
        &&& is_permutation(p, input.len() as int)
        &&& forall|i: int| 0 <= i < out.len() ==> #[trigger] out[i] == input[p[i]]
        &&& forall|i: int, j: int| 0 <= i < j < out.len() ==>
            scores_below(out[j], out[i]) || (!scores_below(out[i], out[j]) && p[i] < p[j])
    }
}

/// A search hit: the call, a snippet around the first hit, and the numbers
/// behind its relevance (hits per transcript byte).
pub struct CallMatch {
    pub call_id: String,
    pub snippet: String,
    /// Occurrences of the query in the transcript.
    pub hits: usize,
    /// Length of the transcript in bytes.
    pub transcript_bytes: usize,
}

impl View for CallMatch {
    type V = MatchView;

    open spec fn view(&self) -> MatchView {
        MatchView {
            call_id: self.call_id@,
            snippet: encode_utf8(self.snippet@),
            hits: self.hits as nat,
            transcript_bytes: self.transcript_bytes as nat,
        }
    }
}

/// The views of a list of hits.
pub open spec fn match_views(v: Seq<CallMatch>) -> Seq<MatchView> {
    v.map_values(|m: CallMatch| m@)
}

/// Strictly lower relevance is transitive.
proof fn lemma_below_transitive(a: MatchView, b: MatchView, c: MatchView)
    requires
        scores_below(a, b),
        scores_below(b, c),
    ensures
        scores_below(a, c),
{
    let (ha, hb, hc) = (a.hits as int, b.hits as int, c.hits as int);
    let (da, db, dc) = (denominator(a) as int, denominator(b) as int, denominator(c) as int);
    assert(ha * dc < hc * da) by (nonlinear_arith)
        requires
            ha * db < hb * da,
            hb * dc < hc * db,
            da > 0,
            db > 0,
            dc > 0,
            ha >= 0,
            hb >= 0,
            hc >= 0,
    {
        assert(ha * db * dc < hb * da * dc);
        assert(hb * dc * da < hc * db * da);
        assert(ha * dc * db < hc * da * db);
    }
}

/// Relevance below one of two equally relevant hits is below the other.
proof fn lemma_below_equal(a: MatchView, x: MatchView, y: MatchView)
    requires
        scores_below(a, x),
        !scores_below(x, y),
        !scores_below(y, x),
    ensures
        scores_below(a, y),
{
    let (ha, hx, hy) = (a.hits as int, x.hits as int, y.hits as int);
    let (da, dx, dy) = (denominator(a) as int, denominator(x) as int, denominator(y) as int);
    assert(ha * dy < hy * da) by (nonlinear_arith)
        requires
            ha * dx < hx * da,
            hx * dy == hy * dx,
            da > 0,
            dx > 0,
            dy > 0,
            ha >= 0,
            hx >= 0,
            hy >= 0,
    {
        assert(ha * dx * dy < hx * da * dy);
        assert(hx * dy * da == hy * dx * da);
        assert(ha * dy * dx < hy * da * dx);
    }
}

/// How many hits of `ms` score below `x`.
pub open spec fn count_below(ms: Seq<MatchView>, x: MatchView) -> nat
    decreases ms.len(),
{
    if ms.len() == 0 {
        0
    } else {
        count_below(ms.drop_last(), x) + if scores_below(ms.last(), x) { 1nat } else { 0nat }
    }
}

/// Counting hits below two thresholds, one of which dominates the other.
proof fn lemma_count_below_mono(ms: Seq<MatchView>, x: MatchView, y: MatchView)
    requires
        forall|k: int| 0 <= k < ms.len() && scores_below(#[trigger] ms[k], y) ==> scores_below(ms[k], x),
    ensures
        count_below(ms, y) <= count_below(ms, x),
        (exists|k: int| 0 <= k < ms.len() && scores_below(#[trigger] ms[k], x) && !scores_below(ms[k], y))
            ==> count_below(ms, y) < count_below(ms, x),
        (forall|k: int| 0 <= k < ms.len() ==> (scores_below(#[trigger] ms[k], y) <==> scores_below(ms[k], x)))
            ==> count_below(ms, y) == count_below(ms, x),
    decreases ms.len(),
{
    if ms.len() > 0 {
        let p = ms.drop_last();
        assert forall|k: int| 0 <= k < p.len() && scores_below(#[trigger] p[k], y) implies scores_below(p[k], x) by {
            assert(p[k] == ms[k]);
        }
        lemma_count_below_mono(p, x, y);
        if exists|k: int| 0 <= k < ms.len() && scores_below(#[trigger] ms[k], x) && !scores_below(ms[k], y) {
            let k = choose|k: int| 0 <= k < ms.len() && scores_below(#[trigger] ms[k], x) && !scores_below(ms[k], y);
            if k < p.len() {
                assert(p[k] == ms[k]);
            }
        }
        if forall|k: int| 0 <= k < ms.len() ==> (scores_below(#[trigger] ms[k], y) <==> scores_below(ms[k], x)) {
            assert forall|k: int| 0 <= k < p.len() implies (scores_below(#[trigger] p[k], y) <==> scores_below(p[k], x)) by {
                assert(p[k] == ms[k]);
            }
        }
    }
}

/// Ranks agree with relevance: a higher rank means a strictly higher score,
/// an equal rank an equal score.
proof fn lemma_rank_order(ms: Seq<MatchView>, x: MatchView, y: MatchView)
    requires
        ms.contains(x),
        ms.contains(y),
    ensures
        count_below(ms, x) > count_below(ms, y) ==> scores_below(y, x),
        count_below(ms, x) == count_below(ms, y) ==> !scores_below(y, x) && !scores_below(x, y),
{
    if scores_below(y, x) {
        assert forall|k: int| 0 <= k < ms.len() && scores_below(#[trigger] ms[k], y) implies scores_below(ms[k], x) by {
            lemma_below_transitive(ms[k], y, x);
        }
        let ky = choose|k: int| 0 <= k < ms.len() && ms[k] == y;
        assert(!scores_below(y, y));
        lemma_count_below_mono(ms, x, y);
    } else if scores_below(x, y) {
        assert forall|k: int| 0 <= k < ms.len() && scores_below(#[trigger] ms[k], x) implies scores_below(ms[k], y) by {
            lemma_below_transitive(ms[k], x, y);
        }
        let kx = choose|k: int| 0 <= k < ms.len() && ms[k] == x;
        assert(!scores_below(x, x));
        lemma_count_below_mono(ms, y, x);
    } else {
        assert forall|k: int| 0 <= k < ms.len() implies (scores_below(#[trigger] ms[k], y) <==> scores_below(ms[k], x)) by {
            if scores_below(ms[k], x) {
                lemma_below_equal(ms[k], x, y);
            }
            if scores_below(ms[k], y) {
                lemma_below_equal(ms[k], y, x);
            }
        }
        lemma_count_below_mono(ms, x, y);
    }
}

/// Whether hit `a` scores lower than hit `b`.
fn match_below(a: &CallMatch, b: &CallMatch) -> (r: bool)
    ensures
        r == scores_below(a@, b@),
{
    let da: u128 = if a.transcript_bytes == 0 { 1 } else { a.transcript_bytes as u128 };
    let db: u128 = if b.transcript_bytes == 0 { 1 } else { b.transcript_bytes as u128 };
    let ha: u128 = a.hits as u128;
    let hb: u128 = b.hits as u128;
    proof {
        assert(ha * db <= 0xffff_ffff_ffff_ffffu128 * 0xffff_ffff_ffff_ffffu128) by (nonlinear_arith)
            requires
                ha <= 0xffff_ffff_ffff_ffffu128,
                db <= 0xffff_ffff_ffff_ffffu128,
        ;
        assert(hb * da <= 0xffff_ffff_ffff_ffffu128 * 0xffff_ffff_ffff_ffffu128) by (nonlinear_arith)
            requires
                hb <= 0xffff_ffff_ffff_ffffu128,
                da <= 0xffff_ffff_ffff_ffffu128,
        ;
    }
    ha * db < hb * da
}

/// Orders hits by relevance, best first; hits of equal relevance keep their
/// order.
pub fn rank_matches(ms: Vec<CallMatch>) -> (r: Vec<CallMatch>)
    ensures
        ranked_by_score(match_views(ms@), match_views(r@)),
{
    let ghost mv = match_views(ms@);
    let mut keyed: Vec<(i128, CallMatch)> = Vec::new();
    let n: usize = ms.len();
    let mut i: usize = 0;
    let mut rest = ms;
    let ghost all = rest@;
    while rest.len() > 0
        invariant
            i + rest@.len() == n,
            all.len() == n,
            mv == match_views(all),
            rest@ == all.skip(i as int),
            keyed@.len() == i,
            forall|k: int| 0 <= k < i ==> (#[trigger] keyed@[k]).1 == all[k],
            forall|k: int| 0 <= k < i ==> (#[trigger] keyed@[k]).0 == count_below(mv, mv[k]),
        decreases rest.len(),
    {
        proof {
            assert(i < n);
        }
        let mut below: usize = 0;
        let mut j: usize = 0;
        while j < rest.len()
            invariant
                j <= rest@.len(),
                rest@.len() > 0,
                below <= j,
                below == count_below(match_views(rest@.take(j as int)), rest@[0]@),
            decreases rest.len() - j,
        {
            proof {
                assert(match_views(rest@.take(j + 1)).drop_last() =~= match_views(rest@.take(j as int)));
            }
            if match_below(&rest[j], &rest[0]) {
                below = below + 1;
            }
            j = j + 1;
        }
        let mut before: usize = 0;
        let mut k: usize = 0;
        while k < keyed.len()
            invariant
                k <= keyed@.len(),
                rest@.len() > 0,
                before <= k,
                before == count_below(match_views(keyed@.take(k as int).map_values(|x: (i128, CallMatch)| x.1)), rest@[0]@),
            decreases keyed.len() - k,
        {
            proof {
                assert(match_views(keyed@.take(k + 1).map_values(|x: (i128, CallMatch)| x.1)).drop_last()
                    =~= match_views(keyed@.take(k as int).map_values(|x: (i128, CallMatch)| x.1)));
            }
            if match_below(&keyed[k].1, &rest[0]) {
                before = before + 1;
            }
            k = k + 1;
        }
        proof {
            assert(rest@.take(j as int) =~= rest@);
            assert(keyed@.take(k as int).map_values(|x: (i128, CallMatch)| x.1) =~= all.take(i as int));
            assert(rest@ =~= all.skip(i as int));
            lemma_count_below_split(mv, i as int, rest@[0]@);
            assert(match_views(all.take(i as int)) =~= mv.take(i as int));
            assert(match_views(rest@) =~= mv.skip(i as int));
            assert(mv[i as int] == rest@[0]@);
        }
        let item = rest.remove(0);
        let key: i128 = before as i128 + below as i128;
        keyed.push((key, item));
        i = i + 1;
        proof {
            assert(rest@ =~= all.skip(i as int));
        }
    }
    let ghost kv = keyed@;
    let sorted = sort_desc_by_key(keyed);
    let ghost sv = sorted@;
    let n2: usize = sorted.len();
    let mut out: Vec<CallMatch> = Vec::new();
    let mut rest2 = sorted;
    let mut m: usize = 0;
    while rest2.len() > 0
        invariant
            m + rest2@.len() == sv.len(),
            sv.len() == n2,
            rest2@ == sv.skip(m as int),
            out@.len() == m,
            forall|q: int| 0 <= q < m ==> #[trigger] out@[q] == sv[q].1,
        decreases rest2.len(),
    {
        let (_, item) = rest2.remove(0);
        out.push(item);
        m = m + 1;
        proof {
            assert(rest2@ =~= sv.skip(m as int));
        }
    }
    proof {
        let p = choose|p: Seq<int>| stable_desc_by(kv, sv, p);
        let ov = match_views(out@);
        assert(kv.len() == mv.len());
        assert(ov.len() == mv.len());
        assert forall|q: int| 0 <= q < ov.len() implies #[trigger] ov[q] == mv[p[q]] by {
            assert(sv[q] == kv[p[q]]);
        }
        assert forall|a: int, b: int| 0 <= a < b < ov.len() implies
            scores_below(ov[b], ov[a]) || (!scores_below(ov[a], ov[b]) && p[a] < p[b]) by {
            assert(sv[a] == kv[p[a]]);
            assert(sv[b] == kv[p[b]]);
            assert(mv.contains(mv[p[a]]));
            assert(mv.contains(mv[p[b]]));
            lemma_rank_order(mv, mv[p[a]], mv[p[b]]);
        }
        assert(is_permutation(p, mv.len() as int));
        assert(ranked_by_score(mv, ov));
    }
    out
}

/// Whether `n` occurs in `h` at byte `i`.
fn occurs_at_exec(h: &[u8], n: &[u8], i: usize) -> (b: bool)
    requires
        i + n@.len() <= h@.len(),
    ensures
        b == occurs_at(h@, n@, i as int),
{
    let hl: usize = h.len();
    let mut k: usize = 0;
    while k < n.len()
        invariant
            k <= n@.len(),
            hl == h@.len(),
            i + n@.len() <= h@.len(),
            forall|m: int| 0 <= m < k ==> h@[i + m] == n@[m],
        decreases n.len() - k,
    {
        if h[i + k] != n[k] {
            proof {
                assert(h@.subrange(i as int, i + n@.len())[k as int] != n@[k as int]);
            }
            return false;
        }
        k = k + 1;
    }
    proof {
        assert(h@.subrange(i as int, i + n@.len()) =~= n@);
    }
    true
}

/// The first byte at which `n` occurs in `h` (`str::find` on UTF-8 bytes).
pub fn find_bytes(h: &[u8], n: &[u8]) -> (r: Option<usize>)
    ensures
        match r {
            Some(i) => first_occurrence(h@, n@) == Some(i as int),
            None => first_occurrence(h@, n@) is None,
        },
{
    if n.len() > h.len() {
        proof {
            assert forall|j: int| !occurs_at(h@, n@, j) by {}
        }
        return None;
    }
    let last: usize = h.len() - n.len();
    let mut i: usize = 0;
    loop
        invariant_except_break
            i <= last,
            last + n@.len() == h@.len(),
            forall|j: int| 0 <= j < i ==> !occurs_at(h@, n@, j),
        ensures
            last + n@.len() == h@.len(),
            forall|j: int| 0 <= j <= last ==> !occurs_at(h@, n@, j),
        decreases last - i,
    {
        if occurs_at_exec(h, n, i) {
            proof {
                let c = choose|c: int| occurs_at(h@, n@, c) && forall|j: int| 0 <= j < c ==> !occurs_at(h@, n@, j);
                assert(occurs_at(h@, n@, i as int));
                if c < i {
                    assert(!occurs_at(h@, n@, c));
                }
                if c > i {
                    assert(!occurs_at(h@, n@, i as int));
                }
            }
            return Some(i);
        }
        if i == last {
            break;
        }
        i = i + 1;
    }
    proof {
        assert forall|j: int| !occurs_at(h@, n@, j) by {
            if 0 <= j <= last {
            }
        }
    }
    None
}

/// Non-overlapping occurrences never outnumber the bytes searched.
proof fn lemma_count_from_bound(h: Seq<u8>, n: Seq<u8>, i: int)
    requires
        0 <= i <= h.len(),
    ensures
        count_from(h, n, i) <= h.len() - i,
    decreases h.len() - i,
{
    if n.len() > 0 && i + n.len() <= h.len() {
        if occurs_at(h, n, i) {
            lemma_count_from_bound(h, n, i + n.len());
        } else {
            lemma_count_from_bound(h, n, i + 1);
        }
    }
}

/// Non-overlapping occurrences of a non-empty `n` in `h`, leftmost first
/// (`str::matches(..).count()` on UTF-8 bytes).
pub fn count_bytes(h: &[u8], n: &[u8]) -> (r: usize)
    requires
        n@.len() > 0,
    ensures
        r == count_from(h@, n@, 0),
{
    proof {
        lemma_count_from_bound(h@, n@, 0);
    }
    let mut i: usize = 0;
    let mut c: usize = 0;
    while i <= h.len() && n.len() <= h.len() - i
        invariant
            i <= h@.len(),
            n@.len() > 0,
            c + count_from(h@, n@, i as int) == count_from(h@, n@, 0),
            count_from(h@, n@, 0) <= h@.len(),
        decreases h.len() - i,
    {
        if occurs_at_exec(h, n, i) {
            c = c + 1;
            i = i + n.len();
        } else {
            i = i + 1;
        }
    }
    c
}

/// The last character boundary of `t` at or before byte `i`.
fn floor_boundary(t: &str, i: usize) -> (r: usize)
    requires
        i <= t.spec_bytes().len(),
    ensures
        r == boundary_down(t.spec_bytes(), i as int),
{
    let mut k = i;
    while k > 0 && !t.is_char_boundary(k)
        invariant
            k <= i,
            boundary_down(t.spec_bytes(), k as int) == boundary_down(t.spec_bytes(), i as int),
        decreases k,
    {
        k = k - 1;
    }
    k
}

/// The first character boundary of `t` at or after byte `i`, or its end.
fn ceil_boundary(t: &str, i: usize) -> (r: usize)
    requires
        i <= t.spec_bytes().len(),
    ensures
        r == boundary_up(t.spec_bytes(), i as int),
{
    let n: usize = t.as_bytes().len();
    let mut k = i;
    while k < n && !t.is_char_boundary(k)
        invariant
            i <= k <= n,
            n == t.spec_bytes().len(),
            boundary_up(t.spec_bytes(), k as int) == boundary_up(t.spec_bytes(), i as int),
        decreases n - k,
    {
        k = k + 1;
    }
    k
}

/// The part of `t` between two byte offsets on character boundaries.
fn cut_bytes(t: &str, start: usize, end: usize) -> (r: String)
    requires
        start <= end,
        is_char_boundary(t.spec_bytes(), start as int),
        is_char_boundary(t.spec_bytes(), end as int),
    ensures
        encode_utf8(r@) == t.spec_bytes().subrange(start as int, end as int),
{
    let tb = t.as_bytes();
    let tlen: usize = tb.len();
    proof {
        vstd::utf8::encode_utf8_valid_utf8(t@);
        if end > tlen {
            vstd::utf8::is_char_boundary_start_end_of_seq(t.spec_bytes());
        }
    }
    let (_, tail) = t.split_at(start);
    proof {
        let tbs = t.spec_bytes();
        let tails = tail.spec_bytes();
        vstd::utf8::encode_utf8_valid_utf8(tail@);
        assert(tails =~= tbs.subrange(start as int, tbs.len() as int));
        if end == tlen {
            vstd::utf8::is_char_boundary_start_end_of_seq(tails);
        } else if end > start {
            vstd::utf8::is_char_boundary_iff_not_is_continuation_byte(tbs, end as int);
            vstd::utf8::is_char_boundary_iff_not_is_continuation_byte(tails, end - start);
            assert(tails[end - start] == tbs[end as int]);
        }
    }
    let (mid, _) = tail.split_at(end - start);
    proof {
        assert(mid.spec_bytes() =~= tb@.subrange(start as int, end as int));
    }
    mid.to_owned()
}

/// How many times `str::matches` finds the query in the text.
fn count_hits(text: &str, query: &str) -> (r: usize)
    ensures
        r == saturate(match_count(text@, query@)),
{
    let needle = query.as_bytes();
    if needle.len() == 0 {
        proof {
            if query@.len() > 0 {
                lemma_encode_nonempty(query@);
            }
        }
        let l = text.unicode_len();
        if l < usize::MAX {
            l + 1
        } else {
            l
        }
    } else {
        let hay = text.as_bytes();
        proof {
            if query@.len() == 0 {
                assert(encode_utf8(query@) =~= Seq::<u8>::empty());
            }
            lemma_count_from_bound(hay@, needle@, 0);
        }
        count_bytes(hay, needle)
    }
}

/// A non-empty text has a non-empty encoding.
proof fn lemma_encode_nonempty(s: Seq<char>)
    requires
        s.len() > 0,
    ensures
        encode_utf8(s).len() > 0,
{
    vstd::utf8::char_is_scalar(s[0]);
}

/// The hit for one call, if the query occurs in its transcript
/// (case-insensitively): the snippet around the first occurrence and the
/// number of occurrences.
pub fn match_call(call: &Call, query: &str, query_lower: &str) -> (r: Option<CallMatch>)
    requires
        query_lower@ == lowercase(query@),
    ensures
        match r {
            Some(m) => match_of(call@, query@) == Some(m@),
            None => match_of(call@, query@) is None,
        },
        is_ascii_text(call.transcript@) ==> lowercase(call.transcript@) == ascii_lowercase(call.transcript@),
{
    let lowered = to_lowercase(call.transcript.as_str());
    let hay = lowered.as_str().as_bytes();
    let needle = query_lower.as_bytes();
    match find_bytes(hay, needle) {
        None => None,
        Some(pos) => {
            let t = call.transcript.as_str();
            let tb = t.as_bytes();
            let tlen: usize = tb.len();
            let qlen: usize = query.as_bytes().len();
            let start: usize = if pos >= 50 { pos - 50 } else { 0 };
            let far: u128 = pos as u128 + qlen as u128 + 50;
            let end: usize = if far <= tlen as u128 { far as usize } else { tlen };
            let s0: usize = if start <= end { start } else { end };
            let a = floor_boundary(t, s0);
            let b = ceil_boundary(t, end);
            proof {
                lemma_snippet_bounds(pos as int, encode_utf8(query@).len(), t@);
            }
            let snippet = cut_bytes(t, a, b);
            let hits = count_hits(lowered.as_str(), query_lower);
            Some(CallMatch { call_id: call.id.clone(), snippet, hits, transcript_bytes: tlen })
        },
    }
}

/// Searches the calls' transcripts for a query, case-insensitively: one hit
/// per call that contains it, with a snippet of about 50 bytes on either
/// side of the first occurrence (widened to whole characters), ordered by
/// occurrences per transcript byte, best first. Every call is searched;
/// no transcript makes the search fail.
pub fn search_calls(calls: &Vec<Call>, query: &str) -> (r: Vec<CallMatch>)
    ensures
        ranked_by_score(hits_in_order(call_views(calls@), query@), match_views(r@)),
        is_ascii_text(query@) ==> lowercase(query@) == ascii_lowercase(query@),
        forall|k: int|
            0 <= k < calls@.len() && is_ascii_text(#[trigger] calls@[k].transcript@) ==> lowercase(
                calls@[k].transcript@,
            ) == ascii_lowercase(calls@[k].transcript@),
{
    let query_lower = to_lowercase(query);
    let mut found: Vec<CallMatch> = Vec::new();
    let mut i: usize = 0;
    while i < calls.len()
        invariant
            i <= calls@.len(),
            query_lower@ == lowercase(query@),
            match_views(found@) == hits_in_order(call_views(calls@.take(i as int)), query@),
            is_ascii_text(query@) ==> lowercase(query@) == ascii_lowercase(query@),
            forall|k: int|
                0 <= k < i && is_ascii_text(#[trigger] calls@[k].transcript@) ==> lowercase(calls@[k].transcript@)
                    == ascii_lowercase(calls@[k].transcript@),
        decreases calls.len() - i,
    {
        proof {
            assert(call_views(calls@)[i as int] == calls@[i as int]@);
            assert(call_views(calls@.take(i + 1)).drop_last() =~= call_views(calls@.take(i as int)));
            assert(call_views(calls@.take(i + 1)).last() == calls@[i as int]@);
        }
        let ghost before = found@;
        match match_call(&calls[i], query, query_lower.as_str()) {
            Some(m) => {
                found.push(m);
                proof {
                    assert(match_views(found@) =~= match_views(before).push(m@));
                }
            },
            None => {},
        }
        i = i + 1;
    }
    proof {
        assert(calls@.take(i as int) =~= calls@);
    }
    rank_matches(found)
}

/// Counting below a threshold splits over a cut of the sequence.
proof fn lemma_count_below_split(ms: Seq<MatchView>, i: int, x: MatchView)
    requires
        0 <= i <= ms.len(),
    ensures
        count_below(ms, x) == count_below(ms.take(i), x) + count_below(ms.skip(i), x),
    decreases ms.len() - i,
{
    if i < ms.len() {
        lemma_count_below_split(ms, i + 1, x);
        lemma_count_below_front(ms.skip(i), x);
        assert(ms.skip(i).drop_first() =~= ms.skip(i + 1));
        assert(ms.take(i + 1).drop_last() =~= ms.take(i));
        assert(ms.take(i + 1).last() == ms[i]);
        assert(ms.skip(i)[0] == ms[i]);
    } else {
        assert(ms.take(i) =~= ms);
        assert(ms.skip(i) =~= Seq::<MatchView>::empty());
    }
}

/// Counting below a threshold, first element apart.
proof fn lemma_count_below_front(ms: Seq<MatchView>, x: MatchView)
    requires
        ms.len() > 0,
    ensures
        count_below(ms, x) == count_below(ms.drop_first(), x) + if scores_below(ms[0], x) { 1nat } else { 0nat },
    decreases ms.len(),
{
    if ms.len() > 1 {
        lemma_count_below_front(ms.drop_last(), x);
        assert(ms.drop_last().drop_first() =~= ms.drop_first().drop_last());
        assert(ms.drop_first().last() == ms.last());
    } else {
        assert(ms.drop_first() =~= Seq::<MatchView>::empty());
        assert(ms.drop_last() =~= Seq::<MatchView>::empty());
    }
}

} // verus!
