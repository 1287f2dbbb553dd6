//! Cutting text into sentences for speech synthesis.
use vstd::prelude::*;
use crate::text::{
    byte_len, char_is_uppercase, char_is_whitespace, chars_of, ends_with, ends_with_chars, is_uppercase,
    is_whitespace, lemma_byte_len_at_least_len, lemma_byte_len_prefix, lemma_byte_len_push, lemma_char_width_bounds,
    lemma_trim_between, string_from_chars, sub_chars, trim, trim_bounds, trim_chars, utf8_width,
};
use vstd::string::StringSliceAdditionalSpecFns;
use vstd::utf8::encode_utf8;

verus! {

/// Characters that may end a sentence.
pub open spec fn is_terminal(c: char) -> bool {
    c == '.' || c == '!' || c == '?'
}

/// Abbreviations after which a period does not end a sentence.
pub open spec fn abbreviations() -> Seq<Seq<char>> {
    seq![
        seq!['M', 'r', '.'],
        seq!['M', 'r', 's', '.'],
        seq!['M', 's', '.'],
        seq!['D', 'r', '.'],
        seq!['P', 'r', 'o', 'f', '.'],
        seq!['S', 'r', '.'],
        seq!['J', 'r', '.'],
        seq!['v', 's', '.'],
        seq!['e', 't', 'c', '.'],
        seq!['e', '.', 'g', '.'],
        seq!['i', '.', 'e', '.'],
    ]
}

/// Whether the trimmed text ends with one of the known abbreviations.
pub open spec fn ends_with_abbreviation(t: Seq<char>) -> bool {
    exists|i: int| 0 <= i < abbreviations().len() && ends_with(t, #[trigger] abbreviations()[i])
}

/// Whether the trimmed text ends with a single capital letter and a period,
/// as in an initial ("A."): the letter stands first or after a space.
pub open spec fn ends_with_initial(t: Seq<char>) -> bool {
    &&& byte_len(t) >= 2
    &&& t.last() == '.'
    &&& char_is_uppercase(t[t.len() - 2])
    &&& (t.len() < 3 || t[t.len() - 3] == ' ')
}

/// Whether the text, once trimmed, reads as the end of a sentence.
pub open spec fn sentence_end(text: Seq<char>) -> bool {
    !ends_with_abbreviation(trim(text)) && !ends_with_initial(trim(text))
}

/// The texts on which the end-of-sentence test is defined: a trimmed text of
/// two or more bytes has at least two characters.
pub open spec fn sentence_end_defined(text: Seq<char>) -> bool {
    !(trim(text).len() == 1 && byte_len(trim(text)) >= 2)
}

/// One step of the sentence splitter, reading `ch` after the pending text:
/// whitespace after a `.`, `!` or `?` closes the pending text as a sentence
/// when it reads as a sentence end; any other character is appended.
pub open spec fn split_step(state: (Seq<Seq<char>>, Seq<char>), ch: char) -> (Seq<Seq<char>>, Seq<char>) {
    let cur = state.1;
    if qualifies(cur, ch) {
        (state.0.push(trim(cur)), Seq::empty())
    } else {
        (state.0, cur.push(ch))
    }
}

/// The closed sentences and the pending text after reading all of `s`.
pub open spec fn split_fold(s: Seq<char>) -> (Seq<Seq<char>>, Seq<char>)
    decreases s.len(),
{
    if s.len() == 0 {
        (Seq::empty(), Seq::empty())
    } else {
        split_step(split_fold(s.drop_last()), s.last())
    }
}

/// The sentences of `s`: the closed ones, then the trimmed rest if any.
pub open spec fn sentences_of(s: Seq<char>) -> Seq<Seq<char>> {
    let (closed, rest) = split_fold(s);
    if trim(rest).len() > 0 {
        closed.push(trim(rest))
    } else {
        closed
    }
}

/// The views of a sequence of strings.
pub open spec fn string_views(v: Seq<String>) -> Seq<Seq<char>> {
    v.map_values(|s: String| s@)
}

/// Whether a break follows the character at `i`: it ends a sentence and
/// whitespace or the end of the text comes after it.
pub open spec fn break_after(c: Seq<char>, i: int) -> bool {
    &&& 0 <= i < c.len()
    &&& is_terminal(c[i])
    &&& (i + 1 == c.len() || char_is_whitespace(c[i + 1]))
}

/// A non-empty trimmed text starts and ends with non-whitespace, and a text
/// that ends with non-whitespace keeps its last character.
pub proof fn lemma_trim_edges(s: Seq<char>)
    ensures
        trim(s).len() > 0 ==> !char_is_whitespace(trim(s)[0]) && !char_is_whitespace(trim(s).last()),
        trim(s).len() <= s.len(),
        s.len() > 0 && !char_is_whitespace(s.last()) ==> trim(s).len() > 0 && trim(s).last() == s.last(),
{
    let a = lemma_leading_ws(s, 0);
    let b = lemma_trailing_ws(s, s.len() as int, a);
    lemma_trim_between(s, a, b);
}

/// Finds the first non-whitespace character at or after `from`.
proof fn lemma_leading_ws(s: Seq<char>, from: int) -> (a: int)
    requires
        0 <= from <= s.len(),
        forall|i: int| 0 <= i < from ==> char_is_whitespace(#[trigger] s[i]),
    ensures
        from <= a <= s.len(),
        forall|i: int| 0 <= i < a ==> char_is_whitespace(#[trigger] s[i]),
        a == s.len() || !char_is_whitespace(s[a]),
    decreases s.len() - from,
{
    if from == s.len() || !char_is_whitespace(s[from]) {
        from
    } else {
        lemma_leading_ws(s, from + 1)
    }
}

/// Finds one past the last non-whitespace character before `to`, not below
/// `lo`, where everything before `lo` is whitespace and `lo` is not.
proof fn lemma_trailing_ws(s: Seq<char>, to: int, lo: int) -> (b: int)
    requires
        0 <= lo <= to <= s.len(),
        forall|i: int| to <= i < s.len() ==> char_is_whitespace(#[trigger] s[i]),
        lo == s.len() || !char_is_whitespace(s[lo]),
    ensures
        lo <= b <= to,
        forall|i: int| b <= i < s.len() ==> char_is_whitespace(#[trigger] s[i]),
        lo == b ==> lo == s.len(),
        lo < b ==> !char_is_whitespace(s[b - 1]),
        to == s.len() && to > 0 && !char_is_whitespace(s[to - 1]) ==> b == to,
    decreases to - lo,
{
    if to == lo {
        if lo < s.len() {
            assert(char_is_whitespace(s[lo]));
        }
        lo
    } else if !char_is_whitespace(s[to - 1]) {
        to
    } else {
        lemma_trailing_ws(s, to - 1, lo)
    }
}

/// The closed sentences are non-empty, trimmed, and end with `.`, `!` or
/// `?`; the pending text never ends a sentence.
proof fn lemma_split_fold(s: Seq<char>)
    ensures
        forall|i: int| 0 <= i < split_fold(s).0.len() ==> {
            let t = #[trigger] split_fold(s).0[i];
            &&& t.len() > 0
            &&& !char_is_whitespace(t[0])
            &&& !char_is_whitespace(t.last())
            &&& is_terminal(t.last())
            &&& !ends_with_abbreviation(t)
        },
    decreases s.len(),
{
    reveal(qualifies);
    if s.len() > 0 {
        let prev = split_fold(s.drop_last());
        lemma_split_fold(s.drop_last());
        lemma_trim_edges(prev.1);
    }
}

/// Every sentence is non-empty and has no whitespace at either end, and every
/// sentence but the last ends with `.`, `!` or `?`.
pub proof fn lemma_sentences_shape(s: Seq<char>)
    ensures
        forall|i: int| 0 <= i < sentences_of(s).len() ==> {
            let t = #[trigger] sentences_of(s)[i];
            &&& t.len() > 0
            &&& !char_is_whitespace(t[0])
            &&& !char_is_whitespace(t.last())
        },
        forall|i: int| 0 <= i < sentences_of(s).len() - 1 ==> is_terminal(#[trigger] sentences_of(s)[i].last()),
{
    lemma_split_fold(s);
    lemma_trim_edges(split_fold(s).1);
    let (closed, rest) = split_fold(s);
    if trim(rest).len() > 0 {
        assert forall|i: int| 0 <= i < closed.len() implies #[trigger] sentences_of(s)[i] == closed[i] by {}
    }
}

/// The characters of a text that are not whitespace, in order.
pub open spec fn visible(s: Seq<char>) -> Seq<char>
    decreases s.len(),
{
    if s.len() == 0 {
        Seq::empty()
    } else {
        visible(s.drop_last()) + if char_is_whitespace(s.last()) { Seq::empty() } else { seq![s.last()] }
    }
}

/// The texts one after the other.
pub open spec fn concat_all(v: Seq<Seq<char>>) -> Seq<char>
    decreases v.len(),
{
    if v.len() == 0 {
        Seq::empty()
    } else {
        concat_all(v.drop_last()) + v.last()
    }
}

/// The visible characters of two texts are those of each, in order.
proof fn lemma_visible_concat(a: Seq<char>, b: Seq<char>)
    ensures
        visible(a + b) == visible(a) + visible(b),
    decreases b.len(),
{
    if b.len() == 0 {
        assert(a + b =~= a);
        assert(visible(a) + visible(b) =~= visible(a));
    } else {
        lemma_visible_concat(a, b.drop_last());
        assert((a + b).drop_last() =~= a + b.drop_last());
        assert((a + b).last() == b.last());
        let tail = if char_is_whitespace(b.last()) { Seq::<char>::empty() } else { seq![b.last()] };
        assert(visible(a) + visible(b.drop_last()) + tail =~= visible(a) + (visible(b.drop_last()) + tail));
    }
}

/// A text of whitespace only has no visible characters.
proof fn lemma_visible_blank(s: Seq<char>)
    requires
        forall|i: int| 0 <= i < s.len() ==> char_is_whitespace(#[trigger] s[i]),
    ensures
        visible(s) == Seq::<char>::empty(),
    decreases s.len(),
{
    if s.len() > 0 {
        lemma_visible_blank(s.drop_last());
        assert(char_is_whitespace(s[s.len() - 1]));
    }
}

/// Trimming removes whitespace only.
proof fn lemma_visible_trim(s: Seq<char>)
    ensures
        visible(trim(s)) == visible(s),
{
    let a = lemma_leading_ws(s, 0);
    let b = lemma_trailing_ws(s, s.len() as int, a);
    lemma_trim_between(s, a, b);
    let head = s.subrange(0, a);
    let mid = s.subrange(a, b);
    let tail = s.subrange(b, s.len() as int);
    assert(s =~= head + mid + tail);
    assert forall|i: int| 0 <= i < head.len() implies char_is_whitespace(#[trigger] head[i]) by {
        assert(head[i] == s[i]);
    }
    assert forall|i: int| 0 <= i < tail.len() implies char_is_whitespace(#[trigger] tail[i]) by {
        assert(tail[i] == s[i + b]);
    }
    lemma_visible_blank(head);
    lemma_visible_blank(tail);
    lemma_visible_concat(head, mid);
    lemma_visible_concat(head + mid, tail);
    assert(visible(head) + visible(mid) =~= visible(mid));
    assert(visible(head + mid) + visible(tail) =~= visible(head + mid));
}

/// The closed sentences and the pending text hold the visible characters
/// read so far, in order.
proof fn lemma_fold_keeps_text(s: Seq<char>)
    ensures
        visible(concat_all(split_fold(s).0) + split_fold(s).1) == visible(s),
    decreases s.len(),
{
    reveal(qualifies);
    if s.len() == 0 {
        assert(concat_all(Seq::<Seq<char>>::empty()) + Seq::<char>::empty() =~= Seq::<char>::empty());
    } else {
        let prev = split_fold(s.drop_last());
        lemma_fold_keeps_text(s.drop_last());
        let ch = s.last();
        let cur = prev.1;
        let j = concat_all(prev.0);
        let tail = if char_is_whitespace(ch) { Seq::<char>::empty() } else { seq![ch] };
        if qualifies(cur, ch) {
            let closed = prev.0.push(trim(cur));
            assert(closed.drop_last() =~= prev.0);
            assert(concat_all(closed) == j + trim(cur));
            assert(concat_all(closed) + Seq::<char>::empty() =~= j + trim(cur));
            lemma_visible_concat(j, trim(cur));
            lemma_visible_trim(cur);
            lemma_visible_concat(j, cur);
            assert(visible(s) == visible(s.drop_last()) + tail);
            assert(tail =~= Seq::<char>::empty());
            assert(visible(s.drop_last()) + tail =~= visible(s.drop_last()));
        } else {
            assert((j + cur.push(ch)).drop_last() =~= j + cur);
            assert((j + cur.push(ch)).last() == ch);
        }
    }
}

/// No text is lost or reordered: the sentences, one after the other, hold
/// exactly the visible characters of the text, in order; only whitespace
/// is dropped.
pub proof fn law_sentences_keep_text(s: Seq<char>)
    ensures
        visible(concat_all(sentences_of(s))) == visible(s),
{
    lemma_fold_keeps_text(s);
    let (closed, rest) = split_fold(s);
    lemma_visible_concat(concat_all(closed), rest);
    lemma_visible_trim(rest);
    if trim(rest).len() > 0 {
        let v = closed.push(trim(rest));
        assert(v.drop_last() =~= closed);
        lemma_visible_concat(concat_all(closed), trim(rest));
    } else {
        assert(trim(rest) =~= Seq::<char>::empty());
        assert(visible(trim(rest)) == Seq::<char>::empty());
        assert(visible(concat_all(closed)) + visible(rest) =~= visible(concat_all(closed)));
    }
}

/// Whether the pending text `p`, followed by `next`, closes a sentence: a
/// `.`, `!` or `?` ends it, whitespace follows, and it reads as a sentence
/// end.
#[verifier::opaque]
pub open spec fn qualifies(p: Seq<char>, next: char) -> bool {
    char_is_whitespace(next) && p.len() > 0 && is_terminal(p.last()) && trim(p).len() > 0 && sentence_end(p)
}

/// The positions of the whitespace characters at which sentences close.
pub open spec fn split_breaks(s: Seq<char>) -> Seq<int>
    decreases s.len(),
{
    if s.len() == 0 {
        Seq::empty()
    } else {
        let prev = split_breaks(s.drop_last());
        if qualifies(split_fold(s.drop_last()).1, s.last()) { prev.push(s.len() - 1) } else { prev }
    }
}

/// Where the `k`-th piece starts: at the text's start, or just after the
/// previous break.
pub open spec fn piece_start(breaks: Seq<int>, k: int) -> int {
    if k == 0 { 0 } else { breaks[k - 1] + 1 }
}

/// Every break lies after its piece's start and inside the text.
#[verifier::opaque]
pub open spec fn breaks_in_order(s: Seq<char>, b: Seq<int>) -> bool {
    forall|k: int| 0 <= k < b.len() ==> 0 <= piece_start(b, k) <= #[trigger] b[k] < s.len()
}

/// Each closed piece closes a sentence at its break.
#[verifier::opaque]
pub open spec fn pieces_qualify(s: Seq<char>, b: Seq<int>) -> bool {
    forall|k: int| 0 <= k < b.len() ==> qualifies(s.subrange(piece_start(b, k), #[trigger] b[k]), s[b[k]])
}

/// No position inside a closed piece closes a sentence.
#[verifier::opaque]
pub open spec fn no_earlier_break(s: Seq<char>, b: Seq<int>) -> bool {
    forall|k: int, j: int|
        0 <= k < b.len() && piece_start(b, k) <= j < #[trigger] b[k] ==> !qualifies(
            s.subrange(piece_start(b, k), j),
            #[trigger] s[j],
        )
}

/// The rest after the last break lies in the text, and no position in it
/// closes a sentence.
#[verifier::opaque]
pub open spec fn rest_open(s: Seq<char>, b: Seq<int>) -> bool {
    let st = piece_start(b, b.len() as int);
    &&& st <= s.len()
    &&& forall|j: int| st <= j < s.len() ==> !qualifies(s.subrange(st, j), #[trigger] s[j])
}

/// The pieces between breaks: each closed piece qualifies at its break, and
/// no earlier position inside a piece, nor inside the rest, qualifies.
pub open spec fn pieces_between_breaks(s: Seq<char>, b: Seq<int>) -> bool {
    breaks_in_order(s, b) && pieces_qualify(s, b) && no_earlier_break(s, b) && rest_open(s, b)
}

/// The closed sentences are the trimmed pieces before the breaks.
#[verifier::opaque]
pub open spec fn closed_are_pieces(s: Seq<char>, b: Seq<int>) -> bool {
    &&& split_fold(s).0.len() == b.len()
    &&& forall|k: int| 0 <= k < b.len() ==> #[trigger] split_fold(s).0[k] == trim(s.subrange(piece_start(b, k), b[k]))
}

/// The fold of `s` in terms of its breaks: the pending text is the rest
/// after the last break, and each closed sentence is the trimmed piece
/// before its break.
pub open spec fn fold_matches_breaks(s: Seq<char>, b: Seq<int>) -> bool {
    &&& pieces_between_breaks(s, b)
    &&& closed_are_pieces(s, b)
    &&& split_fold(s).1 == s.subrange(piece_start(b, b.len() as int), s.len() as int)
}

/// A text with one more character agrees with it before that character.
proof fn lemma_push_prefix(t: Seq<char>, ch: char)
    ensures
        forall|a: int, b: int| 0 <= a <= b <= t.len() ==> #[trigger] t.push(ch).subrange(a, b) == t.subrange(a, b),
        forall|j: int| 0 <= j < t.len() ==> #[trigger] t.push(ch)[j] == t[j],
{
    assert forall|a: int, b: int| 0 <= a <= b <= t.len() implies #[trigger] t.push(ch).subrange(a, b) == t.subrange(a, b) by {
        assert(t.push(ch).subrange(a, b) =~= t.subrange(a, b));
    }
}

/// Piece starts of the old breaks are kept when a break is added.
proof fn lemma_starts_kept(b: Seq<int>, m: int)
    ensures
        forall|k: int| 0 <= k <= b.len() ==> #[trigger] piece_start(b.push(m), k) == piece_start(b, k),
        piece_start(b.push(m), b.len() as int + 1) == m + 1,
{
    assert forall|k: int| 0 <= k <= b.len() implies #[trigger] piece_start(b.push(m), k) == piece_start(b, k) by {
        if k > 0 {
            assert(b.push(m)[k - 1] == b[k - 1]);
        }
    }
}

/// A character that does not close a sentence extends the rest.
proof fn lemma_breaks_extend(t: Seq<char>, ch: char)
    requires
        fold_matches_breaks(t, split_breaks(t)),
        !qualifies(split_fold(t).1, ch),
    ensures
        fold_matches_breaks(t.push(ch), split_breaks(t.push(ch))),
{
    reveal(rest_open);
    reveal(breaks_in_order);
    reveal(pieces_qualify);
    reveal(no_earlier_break);
    reveal(closed_are_pieces);
    assert(0 <= piece_start(split_breaks(t), split_breaks(t).len() as int)) by {
        let b = split_breaks(t);
        if b.len() > 0 {
            assert(0 <= b[b.len() - 1]);
        }
    }
    let s = t.push(ch);
    let b = split_breaks(t);
    let st = piece_start(b, b.len() as int);
    assert(s.drop_last() =~= t);
    assert(split_breaks(s) == b);
    lemma_push_prefix(t, ch);
    let cur = split_fold(t).1;
    assert(split_fold(s).1 == cur.push(ch));
    assert(cur.push(ch) =~= s.subrange(st, s.len() as int));
    assert forall|j: int| st <= j < s.len() implies !qualifies(s.subrange(st, j), #[trigger] s[j]) by {
        if j == t.len() {
            assert(s.subrange(st, j) == t.subrange(st, t.len() as int));
        }
    }
}

/// A character that closes a sentence is a new break.
proof fn lemma_breaks_close(t: Seq<char>, ch: char)
    requires
        fold_matches_breaks(t, split_breaks(t)),
        qualifies(split_fold(t).1, ch),
    ensures
        fold_matches_breaks(t.push(ch), split_breaks(t.push(ch))),
{
    reveal(rest_open);
    reveal(breaks_in_order);
    reveal(pieces_qualify);
    reveal(no_earlier_break);
    reveal(closed_are_pieces);
    assert(0 <= piece_start(split_breaks(t), split_breaks(t).len() as int)) by {
        let b = split_breaks(t);
        if b.len() > 0 {
            assert(0 <= b[b.len() - 1]);
        }
    }
    let s = t.push(ch);
    let b = split_breaks(t);
    let n = b.len() as int;
    let st = piece_start(b, n);
    let m = t.len() as int;
    assert(s.drop_last() =~= t);
    let bs = split_breaks(s);
    assert(bs == b.push(m));
    lemma_push_prefix(t, ch);
    lemma_starts_kept(b, m);
    assert(s[m] == ch);
    assert(s.subrange(st, m) == split_fold(t).1);
    assert(split_fold(s).1 =~= s.subrange(m + 1, s.len() as int));
    assert forall|k: int| 0 <= k < bs.len() implies 0 <= piece_start(bs, k) <= #[trigger] bs[k] < s.len() by {
        if k < n {
            assert(bs[k] == b[k]);
        }
    }
    assert forall|k: int| 0 <= k < bs.len() implies qualifies(s.subrange(piece_start(bs, k), #[trigger] bs[k]), s[bs[k]]) by {
        if k < n {
            assert(bs[k] == b[k]);
        }
    }
    assert forall|k: int, j: int|
        0 <= k < bs.len() && piece_start(bs, k) <= j < #[trigger] bs[k] implies !qualifies(
        s.subrange(piece_start(bs, k), j),
        #[trigger] s[j],
    ) by {
        if k < n {
            assert(bs[k] == b[k]);
        }
    }
    assert forall|k: int| 0 <= k < bs.len() implies #[trigger] split_fold(s).0[k] == trim(
        s.subrange(piece_start(bs, k), bs[k]),
    ) by {
        if k < n {
            assert(bs[k] == b[k]);
        }
    }
}

/// The fold matches its breaks on every text.
proof fn lemma_fold_breaks(s: Seq<char>)
    ensures
        fold_matches_breaks(s, split_breaks(s)),
    decreases s.len(),
{
    if s.len() == 0 {
        assert(s.subrange(0, 0) =~= Seq::<char>::empty());
        reveal(breaks_in_order);
        reveal(pieces_qualify);
        reveal(no_earlier_break);
        reveal(rest_open);
        reveal(closed_are_pieces);
    } else {
        let t = s.drop_last();
        lemma_fold_breaks(t);
        assert(t.push(s.last()) =~= s);
        if qualifies(split_fold(t).1, s.last()) {
            lemma_breaks_close(t, s.last());
        } else {
            lemma_breaks_extend(t, s.last());
        }
    }
}

/// The sentences are the pieces of the text between the breaks, trimmed,
/// then the trimmed rest when it is not blank: a break is a whitespace
/// character after a `.`, `!` or `?` that closes a sentence end, and within
/// each piece and the rest no earlier position is such a break.
pub proof fn law_sentences_between_breaks(s: Seq<char>)
    ensures
        pieces_between_breaks(s, split_breaks(s)),
        ({
            let b = split_breaks(s);
            let n = b.len() as int;
            let rest = trim(s.subrange(piece_start(b, n), s.len() as int));
            &&& sentences_of(s).len() == n + if rest.len() > 0 { 1int } else { 0int }
            &&& forall|k: int| 0 <= k < n ==> #[trigger] sentences_of(s)[k] == trim(s.subrange(piece_start(b, k), b[k]))
            &&& rest.len() > 0 ==> sentences_of(s)[n] == rest
        }),
{
    lemma_fold_breaks(s);
    reveal(closed_are_pieces);
    let b = split_breaks(s);
    let n = b.len() as int;
    let (closed, rest) = split_fold(s);
    if trim(rest).len() > 0 {
        assert forall|k: int| 0 <= k < n implies #[trigger] sentences_of(s)[k] == trim(s.subrange(piece_start(b, k), b[k])) by {
            assert(sentences_of(s)[k] == closed[k]);
        }
    }
}

/// The abbreviations after which a period never closes a sentence,
/// written out: Mr., Mrs., Ms., Dr., Prof., Sr., Jr., vs., etc., e.g., i.e.
pub open spec fn known_abbreviations() -> Seq<Seq<char>> {
    seq![
        "Mr."@, "Mrs."@, "Ms."@, "Dr."@, "Prof."@, "Sr."@, "Jr."@, "vs."@, "etc."@, "e.g."@, "i.e."@,
    ]
}

/// No sentence but the last ends with one of the known abbreviations: a
/// period after "Mrs.", "Dr.", "e.g." and the others stays inside its
/// sentence.
pub proof fn law_no_break_after_abbreviation(s: Seq<char>)
    ensures
        forall|i: int, a: int|
            0 <= i < sentences_of(s).len() - 1 && 0 <= a < known_abbreviations().len() ==> !ends_with(
                #[trigger] sentences_of(s)[i],
                #[trigger] known_abbreviations()[a],
            ),
{
    lemma_split_fold(s);
    reveal_strlit("Mr.");
    reveal_strlit("Mrs.");
    reveal_strlit("Ms.");
    reveal_strlit("Dr.");
    reveal_strlit("Prof.");
    reveal_strlit("Sr.");
    reveal_strlit("Jr.");
    reveal_strlit("vs.");
    reveal_strlit("etc.");
    reveal_strlit("e.g.");
    reveal_strlit("i.e.");
    assert forall|a: int| 0 <= a < known_abbreviations().len() implies #[trigger] known_abbreviations()[a]
        == abbreviations()[a] by {
        assert(known_abbreviations()[0] =~= abbreviations()[0]);
        assert(known_abbreviations()[1] =~= abbreviations()[1]);
        assert(known_abbreviations()[2] =~= abbreviations()[2]);
        assert(known_abbreviations()[3] =~= abbreviations()[3]);
        assert(known_abbreviations()[4] =~= abbreviations()[4]);
        assert(known_abbreviations()[5] =~= abbreviations()[5]);
        assert(known_abbreviations()[6] =~= abbreviations()[6]);
        assert(known_abbreviations()[7] =~= abbreviations()[7]);
        assert(known_abbreviations()[8] =~= abbreviations()[8]);
        assert(known_abbreviations()[9] =~= abbreviations()[9]);
        assert(known_abbreviations()[10] =~= abbreviations()[10]);
    }
    let (closed, rest) = split_fold(s);
    assert forall|i: int, a: int|
        0 <= i < sentences_of(s).len() - 1 && 0 <= a < known_abbreviations().len() implies !ends_with(
        #[trigger] sentences_of(s)[i],
        #[trigger] known_abbreviations()[a],
    ) by {
        assert(sentences_of(s)[i] == closed[i]);
        assert(known_abbreviations()[a] == abbreviations()[a]);
        let t = closed[i];
        if ends_with(t, abbreviations()[a]) {
            assert(ends_with_abbreviation(t));
        }
    }
}

/// The list of abbreviations, as character vectors.
fn abbreviation_list() -> (v: Vec<Vec<char>>)
    ensures
        v@.len() == abbreviations().len(),
        forall|i: int| 0 <= i < v@.len() ==> (#[trigger] v@[i])@ == abbreviations()[i],
{
    let v: Vec<Vec<char>> = vec![
        vec!['M', 'r', '.'],
        vec!['M', 'r', 's', '.'],
        vec!['M', 's', '.'],
        vec!['D', 'r', '.'],
        vec!['P', 'r', 'o', 'f', '.'],
        vec!['S', 'r', '.'],
        vec!['J', 'r', '.'],
        vec!['v', 's', '.'],
        vec!['e', 't', 'c', '.'],
        vec!['e', '.', 'g', '.'],
        vec!['i', '.', 'e', '.'],
    ];
    assert(v@[0]@ =~= abbreviations()[0]);
    assert(v@[1]@ =~= abbreviations()[1]);
    assert(v@[2]@ =~= abbreviations()[2]);
    assert(v@[3]@ =~= abbreviations()[3]);
    assert(v@[4]@ =~= abbreviations()[4]);
    assert(v@[5]@ =~= abbreviations()[5]);
    assert(v@[6]@ =~= abbreviations()[6]);
    assert(v@[7]@ =~= abbreviations()[7]);
    assert(v@[8]@ =~= abbreviations()[8]);
    assert(v@[9]@ =~= abbreviations()[9]);
    assert(v@[10]@ =~= abbreviations()[10]);
    v
}

/// Whether the characters, once trimmed, read as the end of a sentence.
pub fn sentence_end_chars(text: &Vec<char>) -> (b: bool)
    requires
        sentence_end_defined(text@),
    ensures
        b == sentence_end(text@),
{
    let t = trim_chars(text);
    let abbrevs = abbreviation_list();
    let mut i: usize = 0;
    while i < abbrevs.len()
        invariant
            t@ == trim(text@),
            i <= abbrevs@.len(),
            abbrevs@.len() == abbreviations().len(),
            forall|j: int| 0 <= j < abbrevs@.len() ==> (#[trigger] abbrevs@[j])@ == abbreviations()[j],
            forall|j: int| 0 <= j < i ==> !ends_with(t@, #[trigger] abbreviations()[j]),
        decreases abbrevs.len() - i,
    {
        if ends_with_chars(&t, &abbrevs[i]) {
            return false;
        }
        i = i + 1;
    }
    let n: usize = t.len();
    proof {
        lemma_byte_len_at_least_len(t@);
        if n == 0 {
            assert(byte_len(t@) == 0);
        }
    }
    if n >= 2 {
        let last = t[n - 1];
        let prev = t[n - 2];
        if last == '.' && is_uppercase(prev) && (n < 3 || t[n - 3] == ' ') {
            return false;
        }
    }
    true
}

/// Whether the text, once trimmed, reads as the end of a sentence: it does
/// not end with a known abbreviation ("Dr.", "e.g.", ...) nor with an
/// initial such as "A.".
pub fn is_sentence_end(text: &str) -> (b: bool)
    requires
        sentence_end_defined(text@),
    ensures
        b == sentence_end(text@),
{
    let v = chars_of(text);
    sentence_end_chars(&v)
}

/// Splits text into sentences: each ends at `.`, `!` or `?` followed by
/// whitespace or the end of the text, unless an abbreviation or an initial
/// precedes it; it keeps its punctuation and is trimmed. Text after the last
/// such end forms a final sentence.
pub fn split_sentences(text: &str) -> (r: Vec<String>)
    ensures
        string_views(r@) == sentences_of(text@),
{
    let c = chars_of(text);
    let mut sentences: Vec<String> = Vec::new();
    let mut current: Vec<char> = Vec::new();
    let mut i: usize = 0;
    while i < c.len()
        invariant
            i <= c.len(),
            c@ == text@,
            (string_views(sentences@), current@) == split_fold(c@.subrange(0, i as int)),
        decreases c.len() - i,
    {
        let ch = c[i];
        proof {
            reveal(qualifies);
            assert(c@.subrange(0, i + 1).drop_last() =~= c@.subrange(0, i as int));
        }
        let mut closed = false;
        let n = current.len();
        if is_whitespace(ch) && n > 0 {
            let last = current[n - 1];
            if last == '.' || last == '!' || last == '?' {
                let (a, b) = trim_bounds(&current);
                if a < b {
                    proof {
                        lemma_trim_edges(current@);
                        lemma_byte_len_at_least_len(trim(current@));
                        lemma_char_width_bounds(last);
                    }
                    if sentence_end_chars(&current) {
                        let t = sub_chars(&current, a, b);
                        let ghost old_views = string_views(sentences@);
                        sentences.push(string_from_chars(t.as_slice()));
                        proof {
                            assert(string_views(sentences@) =~= old_views.push(trim(current@)));
                        }
                        current = Vec::new();
                        closed = true;
                    }
                }
            }
        }
        if !closed {
            current.push(ch);
        }
        i = i + 1;
    }
    proof {
        assert(c@.subrange(0, c@.len() as int) =~= c@);
    }
    let (a, b) = trim_bounds(&current);
    if a < b {
        let t = sub_chars(&current, a, b);
        let ghost old_views = string_views(sentences@);
        sentences.push(string_from_chars(t.as_slice()));
        proof {
            assert(string_views(sentences@) =~= old_views.push(trim(current@)));
        }
    }
    sentences
}

/// The byte index just after the last `.`, `!` or `?` that whitespace or the
/// end of the text follows, or `None` when there is none.
pub fn find_sentence_break(text: &str) -> (r: Option<usize>)
    ensures
        match r {
            None => forall|i: int| !break_after(text@, i),
            Some(b) => exists|i: int|
                break_after(text@, i) && b == byte_len(text@.subrange(0, i + 1))
                    && forall|j: int| i < j ==> !break_after(text@, j),
        },
{
    let c = chars_of(text);
    let total: usize = text.as_bytes().len();
    let mut last: Option<usize> = None;
    let ghost mut last_i: int = -1;
    let mut pos: usize = 0;
    let mut i: usize = 0;
    proof {
        assert(c@.subrange(0, 0) =~= Seq::<char>::empty());
        assert(encode_utf8(Seq::<char>::empty()) =~= Seq::<u8>::empty());
    }
    while i < c.len()
        invariant
            i <= c.len(),
            c@ == text@,
            total == byte_len(c@),
            pos == byte_len(c@.subrange(0, i as int)),
            -1 <= last_i < i,
            last_i >= 0 ==> break_after(c@, last_i) && byte_len(c@.subrange(0, last_i + 1)) <= total
                && last == Some(byte_len(c@.subrange(0, last_i + 1)) as usize),
            last_i < 0 ==> last.is_none(),
            forall|j: int| last_i < j < i ==> !break_after(c@, j),
        decreases c.len() - i,
    {
        let ch = c[i];
        let w = utf8_width(ch);
        proof {
            lemma_byte_len_push(c@.subrange(0, i as int), ch);
            assert(c@.subrange(0, i as int).push(ch) =~= c@.subrange(0, i + 1));
            lemma_byte_len_prefix(c@, i + 1);
        }
        let next = pos + w;
        if ch == '.' || ch == '!' || ch == '?' {
            if i + 1 >= c.len() || is_whitespace(c[i + 1]) {
                last = Some(next);
                proof {
                    last_i = i as int;
                }
            }
        }
        pos = next;
        i = i + 1;
    }
    proof {
        if last_i < 0 {
            assert forall|j: int| !break_after(text@, j) by {
                if 0 <= j < c@.len() {
                    assert(last_i < j < i);
                }
            }
        } else {
            assert(break_after(text@, last_i));
            assert(forall|j: int| last_i < j ==> !break_after(text@, j));
        }
    }
    last
}

} // verus!
