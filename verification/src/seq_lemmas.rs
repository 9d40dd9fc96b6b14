use vstd::prelude::*;

verus! {

/// No two positions of `s` carry the same key.
pub open spec fn keys_distinct<A, K>(s: Seq<A>, key: spec_fn(A) -> K) -> bool {
    forall|i: int, j: int| 0 <= i < j < s.len() ==> key(#[trigger] s[i]) != key(#[trigger] s[j])
}

/// Filtering one element more either appends that element or changes nothing.
pub proof fn lemma_filter_step<A>(s: Seq<A>, pred: spec_fn(A) -> bool, i: int)
    requires
        0 <= i < s.len(),
    ensures
        s.take(i + 1).filter(pred) == if pred(s[i]) {
            s.take(i).filter(pred).push(s[i])
        } else {
            s.take(i).filter(pred)
        },
{
    reveal(Seq::filter);
    assert(s.take(i + 1).drop_last() =~= s.take(i));
    assert(s.take(i + 1).last() == s[i]);
}

/// The members of a filtered sequence are the members that satisfy the predicate.
pub proof fn lemma_filter_members<A>(s: Seq<A>, pred: spec_fn(A) -> bool)
    ensures
        forall|x: A| #[trigger] s.filter(pred).contains(x) <==> (s.contains(x) && pred(x)),
    decreases s.len(),
{
    reveal(Seq::filter);
    if s.len() == 0 {
        assert forall|x: A| #[trigger] s.filter(pred).contains(x) <==> (s.contains(x) && pred(x)) by {}
    } else {
        let sub = s.drop_last();
        let last = s.last();
        lemma_filter_members(sub, pred);
        let out = s.filter(pred);
        assert forall|x: A| #[trigger] out.contains(x) <==> (s.contains(x) && pred(x)) by {
            if out.contains(x) {
                let k = choose|k: int| 0 <= k < out.len() && out[k] == x;
                if pred(last) && k == out.len() - 1 {
                    assert(x == last);
                    assert(s[s.len() - 1] == x);
                } else {
                    assert(sub.filter(pred)[k] == x);
                    assert(sub.filter(pred).contains(x));
                    assert(sub.contains(x));
                    let m = choose|m: int| 0 <= m < sub.len() && sub[m] == x;
                    assert(s[m] == x);
                }
            }
            if s.contains(x) && pred(x) {
                let m = choose|m: int| 0 <= m < s.len() && s[m] == x;
                if m == s.len() - 1 {
                    assert(out == sub.filter(pred).push(last));
                    assert(out[out.len() - 1] == x);
                } else {
                    assert(sub[m] == x);
                    assert(sub.contains(x));
                    assert(sub.filter(pred).contains(x));
                    let k = choose|k: int| 0 <= k < sub.filter(pred).len() && sub.filter(pred)[k] == x;
                    assert(out[k] == x);
                }
            }
        }
    }
}

/// Filtering keeps keys distinct.
pub proof fn lemma_filter_keys_distinct<A, K>(s: Seq<A>, pred: spec_fn(A) -> bool, key: spec_fn(A) -> K)
    requires
        keys_distinct(s, key),
    ensures
        keys_distinct(s.filter(pred), key),
    decreases s.len(),
{
    reveal(Seq::filter);
    if s.len() > 0 {
        let sub = s.drop_last();
        let last = s.last();
        assert(keys_distinct(sub, key)) by {
            assert forall|i: int, j: int| 0 <= i < j < sub.len() implies key(#[trigger] sub[i]) != key(
                #[trigger] sub[j],
            ) by {
                assert(sub[i] == s[i] && sub[j] == s[j]);
            }
        }
        lemma_filter_keys_distinct(sub, pred, key);
        lemma_filter_members(sub, pred);
        let out = s.filter(pred);
        let inner = sub.filter(pred);
        assert forall|i: int, j: int| 0 <= i < j < out.len() implies key(#[trigger] out[i]) != key(
            #[trigger] out[j],
        ) by {
            if pred(last) && j == out.len() - 1 {
                assert(out[i] == inner[i]);
                assert(inner.contains(inner[i]));
                assert(sub.contains(inner[i]));
                let m = choose|m: int| 0 <= m < sub.len() && sub[m] == inner[i];
                assert(s[m] == out[i]);
                assert(s[s.len() - 1] == out[j]);
            } else {
                assert(out[i] == inner[i] && out[j] == inner[j]);
            }
        }
    }
}

/// Filtering nothing gives nothing.
pub proof fn lemma_filter_start<A>(s: Seq<A>, pred: spec_fn(A) -> bool)
    ensures
        s.take(0).filter(pred) == Seq::<A>::empty(),
{
    reveal(Seq::filter);
    assert(s.take(0) =~= Seq::<A>::empty());
}

/// The members of a sequence after a push are the old members and the new one.
pub proof fn lemma_push_members<A>(s: Seq<A>, x: A)
    ensures
        forall|y: A| #[trigger] s.push(x).contains(y) <==> (s.contains(y) || y == x),
{
    let t = s.push(x);
    assert forall|y: A| t.contains(y) <==> (s.contains(y) || y == x) by {
        if t.contains(y) {
            let k = choose|k: int| 0 <= k < t.len() && t[k] == y;
            if k < s.len() {
                assert(s[k] == y);
            }
        }
        if s.contains(y) {
            let k = choose|k: int| 0 <= k < s.len() && s[k] == y;
            assert(t[k] == y);
        }
        if y == x {
            assert(t[s.len() as int] == y);
        }
    }
}

/// A filter whose predicate holds of every member changes nothing.
pub proof fn lemma_filter_all<A>(s: Seq<A>, pred: spec_fn(A) -> bool)
    requires
        forall|i: int| 0 <= i < s.len() ==> pred(#[trigger] s[i]),
    ensures
        s.filter(pred) == s,
    decreases s.len(),
{
    reveal(Seq::filter);
    if s.len() > 0 {
        let sub = s.drop_last();
        assert forall|i: int| 0 <= i < sub.len() implies pred(#[trigger] sub[i]) by {
            assert(sub[i] == s[i]);
        }
        lemma_filter_all(sub, pred);
        assert(sub.push(s.last()) =~= s);
    } else {
        assert(s.filter(pred) =~= s);
    }
}

} // verus!
