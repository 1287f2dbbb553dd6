//! The speakers of a diarized transcript, and the order of text that ranks
//! them.
use vstd::prelude::*;
use crate::text::{chars_of, str_eq};

verus! {

/// A speaker identified in a diarized transcription.
pub struct Speaker {
    /// The speaker's label ("speaker_0", "speaker_1", or a name).
    pub id: String,
}

/// Whether `a` comes before `b` in the order of `str`: character by
/// character by code point, a proper prefix first.
pub open spec fn text_lt(a: Seq<char>, b: Seq<char>) -> bool
    decreases a.len(),
{
    if a.len() == 0 {
        b.len() > 0
    } else if b.len() == 0 {
        false
    } else if a[0] != b[0] {
        a[0] < b[0]
    } else {
        text_lt(a.drop_first(), b.drop_first())
    }
}

/// No text comes before itself.
pub proof fn lemma_text_lt_irreflexive(a: Seq<char>)
    ensures
        !text_lt(a, a),
    decreases a.len(),
{
    if a.len() > 0 {
        lemma_text_lt_irreflexive(a.drop_first());
    }
}

/// Of two different texts, one comes before the other.
pub proof fn lemma_text_lt_total(a: Seq<char>, b: Seq<char>)
    requires
        a != b,
    ensures
        text_lt(a, b) || text_lt(b, a),
    decreases a.len(),
{
    if a.len() > 0 && b.len() > 0 && a[0] == b[0] {
        if a.drop_first() == b.drop_first() {
            assert(a =~= seq![a[0]] + a.drop_first());
            assert(b =~= seq![b[0]] + b.drop_first());
        }
        lemma_text_lt_total(a.drop_first(), b.drop_first());
    } else if a.len() > 0 && b.len() > 0 {
    } else if a.len() == 0 && b.len() == 0 {
        assert(a =~= b);
    }
}

/// The order is transitive.
pub proof fn lemma_text_lt_transitive(a: Seq<char>, b: Seq<char>, c: Seq<char>)
    requires
        text_lt(a, b),
        text_lt(b, c),
    ensures
        text_lt(a, c),
    decreases a.len(),
{
    if a.len() > 0 && a[0] == b[0] && b[0] == c[0] {
        lemma_text_lt_transitive(a.drop_first(), b.drop_first(), c.drop_first());
    }
}

/// Whether `a` comes before `b`.
pub fn str_lt(a: &str, b: &str) -> (r: bool)
    ensures
        r == text_lt(a@, b@),
{
    let x = chars_of(a);
    let y = chars_of(b);
    let mut i: usize = 0;
    proof {
        assert(x@.skip(0) =~= x@);
        assert(y@.skip(0) =~= y@);
    }
    while i < x.len() && i < y.len() && x[i] == y[i]
        invariant
            i <= x@.len(),
            i <= y@.len(),
            x@ == a@,
            y@ == b@,
            text_lt(x@.skip(i as int), y@.skip(i as int)) == text_lt(a@, b@),
        decreases x.len() - i,
    {
        proof {
            assert(x@.skip(i as int).drop_first() =~= x@.skip(i + 1));
            assert(y@.skip(i as int).drop_first() =~= y@.skip(i + 1));
        }
        i = i + 1;
    }
    proof {
        assert(x@.skip(i as int).len() == x@.len() - i);
        assert(y@.skip(i as int).len() == y@.len() - i);
        if i < x@.len() && i < y@.len() {
            assert(x@.skip(i as int)[0] == x@[i as int]);
            assert(y@.skip(i as int)[0] == y@[i as int]);
            assert(x@[i as int] != y@[i as int]);
            assert(text_lt(x@.skip(i as int), y@.skip(i as int)) == (x@[i as int] < y@[i as int]));
        }
    }
    if i == x.len() {
        i < y.len()
    } else if i == y.len() {
        false
    } else {
        x[i] < y[i]
    }
}

/// Whether some label names the speaker `s`.
pub open spec fn labelled(labels: Seq<Option<String>>, s: Seq<char>) -> bool {
    exists|j: int| 0 <= j < labels.len() && (#[trigger] labels[j] matches Some(l) && l@ == s)
}

/// Whether the texts are in strictly increasing order.
pub open spec fn strictly_ordered(v: Seq<String>) -> bool {
    forall|i: int, j: int| 0 <= i < j < v.len() ==> text_lt(#[trigger] v[i]@, #[trigger] v[j]@)
}

/// Whether `v` holds a string with the given characters.
pub open spec fn lists(v: Seq<String>, s: Seq<char>) -> bool {
    exists|i: int| 0 <= i < v.len() && #[trigger] v[i]@ == s
}

/// The speakers named by the segments' labels, each once, in the order of
/// `str`.
pub fn speakers(labels: &Vec<Option<String>>) -> (r: Vec<String>)
    ensures
        strictly_ordered(r@),
        forall|s: Seq<char>| lists(r@, s) <==> labelled(labels@, s),
{
    let mut out: Vec<String> = Vec::new();
    let mut j: usize = 0;
    while j < labels.len()
        invariant
            j <= labels@.len(),
            strictly_ordered(out@),
            forall|s: Seq<char>| lists(out@, s) <==> labelled(labels@.take(j as int), s),
        decreases labels.len() - j,
    {
        proof {
            assert forall|s: Seq<char>| labelled(labels@.take(j + 1), s) <==> (labelled(labels@.take(j as int), s) || (
            labels@[j as int] matches Some(l) && l@ == s)) by {
                if labelled(labels@.take(j + 1), s) {
                    let k = choose|k: int| 0 <= k < j + 1 && (#[trigger] labels@.take(j + 1)[k] matches Some(l) && l@ == s);
                    if k < j {
                        assert(labels@.take(j as int)[k] == labels@.take(j + 1)[k]);
                    }
                }
                if labelled(labels@.take(j as int), s) {
                    let k = choose|k: int| 0 <= k < j && (#[trigger] labels@.take(j as int)[k] matches Some(l) && l@ == s);
                    assert(labels@.take(j + 1)[k] == labels@.take(j as int)[k]);
                }
                if labels@[j as int] matches Some(l) && l@ == s {
                    assert(labels@.take(j + 1)[j as int] == labels@[j as int]);
                }
            }
        }
        let ghost out_before = out@;
        match &labels[j] {
            Some(l) => {
                let mut k: usize = 0;
                while k < out.len() && str_lt(out[k].as_str(), l.as_str())
                    invariant
                        k <= out@.len(),
                        forall|m: int| 0 <= m < k ==> text_lt(#[trigger] out@[m]@, l@),
                    decreases out.len() - k,
                {
                    k = k + 1;
                }
                let present = k < out.len() && str_eq(out[k].as_str(), l.as_str());
                if !present {
                    let ghost before = out@;
                    proof {
                        if k < before.len() {
                            lemma_text_lt_total(before[k as int]@, l@);
                            assert(text_lt(l@, before[k as int]@));
                        }
                        assert forall|m: int| k <= m < before.len() implies text_lt(l@, #[trigger] before[m]@) by {
                            if m > k {
                                lemma_text_lt_transitive(l@, before[k as int]@, before[m]@);
                            }
                        }
                    }
                    out.insert(k, l.clone());
                    proof {
                        assert(before == out_before);
                    }
                    proof {
                        assert(out@ == before.insert(k as int, *l));
                        assert forall|a: int, b: int| 0 <= a < b < out@.len() implies text_lt(
                            #[trigger] out@[a]@,
                            #[trigger] out@[b]@,
                        ) by {
                            if b < k {
                            } else if b == k {
                            } else if a < k {
                                assert(out@[b] == before[b - 1]);
                                lemma_text_lt_transitive(out@[a]@, l@, before[b - 1]@);
                            } else if a == k {
                                assert(out@[b] == before[b - 1]);
                            } else {
                                assert(out@[a] == before[a - 1]);
                                assert(out@[b] == before[b - 1]);
                            }
                        }
                        assert forall|s: Seq<char>| lists(out@, s) <==> (lists(before, s) || l@ == s) by {
                            if lists(out@, s) {
                                let i = choose|i: int| 0 <= i < out@.len() && #[trigger] out@[i]@ == s;
                                if i < k {
                                    assert(before[i]@ == s);
                                } else if i > k {
                                    assert(before[i - 1]@ == s);
                                }
                            }
                            if lists(before, s) {
                                let i = choose|i: int| 0 <= i < before.len() && #[trigger] before[i]@ == s;
                                if i < k {
                                    assert(out@[i]@ == s);
                                } else {
                                    assert(out@[i + 1]@ == s);
                                }
                            }
                            if l@ == s {
                                assert(out@[k as int]@ == s);
                            }
                        }
                    }
                } else {
                    proof {
                        assert forall|s: Seq<char>| lists(out@, s) <==> (lists(out_before, s) || l@ == s) by {
                            if l@ == s {
                                assert(out@[k as int]@ == s);
                            }
                        }
                    }
                }
            },
            None => {
                proof {
                    assert(out@ == out_before);
                }
            },
        }
        proof {
            assert forall|s: Seq<char>| lists(out@, s) <==> labelled(labels@.take(j + 1), s) by {
                assert(lists(out_before, s) <==> labelled(labels@.take(j as int), s));
                assert(labelled(labels@.take(j + 1), s) <==> (labelled(labels@.take(j as int), s) || (
                labels@[j as int] matches Some(l) && l@ == s)));
                match labels@[j as int] {
                    Some(l) => {
                        assert(lists(out@, s) <==> (lists(out_before, s) || l@ == s));
                    },
                    None => {},
                }
            }
        }
        j = j + 1;
    }
    proof {
        assert(labels@.take(j as int) =~= labels@);
    }
    out
}

} // verus!
