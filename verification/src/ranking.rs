//! Stable ordering of keyed items, largest key first.
use vstd::prelude::*;

verus! {

/// `p` is a permutation of `0..n`.
pub open spec fn is_permutation(p: Seq<int>, n: int) -> bool {
    &&& p.len() == n
    &&& forall|i: int| 0 <= i < n ==> 0 <= #[trigger] p[i] < n
    &&& forall|i: int, j: int| 0 <= i < j < n ==> p[i] != p[j]
}

/// `out` is `input` reordered by `p`, largest key first, items with equal
/// keys keeping their input order.
pub open spec fn stable_desc_by<T>(input: Seq<(i128, T)>, out: Seq<(i128, T)>, p: Seq<int>) -> bool {
    &&& out.len() == input.len()
    &&& is_permutation(p, input.len() as int)
    &&& forall|i: int| 0 <= i < out.len() ==> #[trigger] out[i] == input[p[i]]
    &&& forall|i: int, j: int| 0 <= i < j < out.len() ==>
        out[i].0 > out[j].0 || (out[i].0 == out[j].0 && p[i] < p[j])
}

/// `out` is the stable sort of `input` by key, largest first.
pub open spec fn is_stable_desc_sort<T>(input: Seq<(i128, T)>, out: Seq<(i128, T)>) -> bool {
    exists|p: Seq<int>| stable_desc_by(input, out, p)
}

/// Orders keyed items by key, largest first; items with equal keys keep
/// their relative order.
pub fn sort_desc_by_key<T>(v: Vec<(i128, T)>) -> (r: Vec<(i128, T)>)
    ensures
        is_stable_desc_sort(v@, r@),
{
    let ghost input = v@;
    let n: usize = v.len();
    let mut rest = v;
    let mut out: Vec<(i128, T)> = Vec::new();
    let ghost mut p: Seq<int> = Seq::empty();
    let mut k: usize = 0;
    while rest.len() > 0
        invariant
            k + rest@.len() == input.len(),
            input.len() == n,
            rest@ == input.skip(k as int),
            stable_desc_by(input.take(k as int), out@, p),
        decreases rest.len(),
    {
        proof {
            assert(k < input.len());
        }
        let item = rest.remove(0);
        let key = item.0;
        let mut pos: usize = 0;
        while pos < out.len() && out[pos].0 >= key
            invariant
                pos <= out.len(),
                forall|i: int| 0 <= i < pos ==> out@[i].0 >= key,
            decreases out.len() - pos,
        {
            pos = pos + 1;
        }
        let ghost old_out = out@;
        let ghost old_p = p;
        out.insert(pos, item);
        proof {
            let pre = input.take(k as int);
            let now = input.take(k + 1);
            assert(input[k as int] == item);
            assert forall|i: int| 0 <= i < k implies #[trigger] now[i] == pre[i] by {}
            p = old_p.insert(pos as int, k as int);
            assert forall|i: int| 0 <= i < k + 1 implies 0 <= #[trigger] p[i] < k + 1 by {
                if i < pos {
                    assert(p[i] == old_p[i]);
                } else if i > pos {
                    assert(p[i] == old_p[i - 1]);
                }
            }
            assert forall|i: int, j: int| 0 <= i < j < k + 1 implies p[i] != p[j] by {
                if i < pos && j < pos {
                } else if i < pos && j == pos {
                } else if i < pos && j > pos {
                    assert(p[j] == old_p[j - 1]);
                } else if i == pos {
                    assert(p[j] == old_p[j - 1]);
                } else {
                    assert(p[i] == old_p[i - 1]);
                    assert(p[j] == old_p[j - 1]);
                }
            }
            assert forall|i: int| 0 <= i < out@.len() implies #[trigger] out@[i] == now[p[i]] by {
                if i < pos {
                    assert(out@[i] == old_out[i]);
                    assert(p[i] == old_p[i]);
                } else if i > pos {
                    assert(out@[i] == old_out[i - 1]);
                    assert(p[i] == old_p[i - 1]);
                }
            }
            assert forall|i: int, j: int| 0 <= i < j < out@.len() implies
                out@[i].0 > out@[j].0 || (out@[i].0 == out@[j].0 && p[i] < p[j]) by {
                if i < pos && j < pos {
                } else if i < pos && j == pos {
                } else if i < pos && j > pos {
                    assert(out@[j] == old_out[j - 1]);
                    assert(p[j] == old_p[j - 1]);
                } else if i == pos {
                    assert(out@[j] == old_out[j - 1]);
                    assert(old_out[pos as int].0 < key);
                    if j - 1 > pos {
                        assert(old_out[pos as int].0 >= old_out[j - 1].0);
                    }
                } else {
                    assert(out@[i] == old_out[i - 1]);
                    assert(p[i] == old_p[i - 1]);
                    assert(out@[j] == old_out[j - 1]);
                    assert(p[j] == old_p[j - 1]);
                }
            }
            assert(stable_desc_by(now, out@, p));
        }
        k = k + 1;
        proof {
            assert(rest@ =~= input.skip(k as int));
        }
    }
    proof {
        assert(input.take(k as int) =~= input);
    }
    out
}

} // verus!
