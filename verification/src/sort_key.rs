//! The order in which spans are printed.
//!
//! Spans that stand side by side are printed in the order of their keys: by
//! rank, then by start time, then by span id. The span id makes the order
//! total, so that a set of spans has exactly one printing order.

use vstd::prelude::*;

verus! {

/// What a span is ordered by among the spans it stands beside.
#[derive(Clone, Copy, Debug, PartialEq, Eq, Structural)]
pub struct SortKey {
    pub rank: u32,
    pub start_time: u128,
    pub span_id: u64,
}

/// `a` comes before `b`.
pub open spec fn key_lt(a: SortKey, b: SortKey) -> bool {
    a.rank < b.rank || (a.rank == b.rank && (a.start_time < b.start_time || (a.start_time
        == b.start_time && a.span_id < b.span_id)))
}

/// Every key of `s` comes before those behind it.
pub open spec fn increasing(s: Seq<SortKey>) -> bool {
    forall|i: int, j: int| 0 <= i < j < s.len() ==> key_lt(#[trigger] s[i], #[trigger] s[j])
}

/// `s` holds the keys of `keys`, each once, in their order.
pub open spec fn is_sorted_seq_of(s: Seq<SortKey>, keys: Set<SortKey>) -> bool {
    increasing(s) && forall|k: SortKey| #[trigger] s.contains(k) <==> keys.contains(k)
}

/// The keys of `keys` in their order. It is meant for finite sets: an
/// infinite set has no such sequence.
pub open spec fn sorted_seq_of(keys: Set<SortKey>) -> Seq<SortKey> {
    choose|s: Seq<SortKey>| is_sorted_seq_of(s, keys)
}

/// Two increasing sequences that hold the same keys are the same sequence.
pub proof fn lemma_increasing_unique(a: Seq<SortKey>, b: Seq<SortKey>)
    requires
        increasing(a),
        increasing(b),
        forall|k: SortKey| #[trigger] a.contains(k) <==> b.contains(k),
    ensures
        a == b,
    decreases a.len(),
{
    if a.len() == 0 {
        if b.len() > 0 {
            assert(b.contains(b[0]));
            assert(a.contains(b[0]));
        }
        assert(a =~= b);
    } else {
        assert(a.contains(a.last()));
        assert(b.contains(a.last()));
        let x = a.last();
        let y = b.last();
        assert(b.contains(y));
        assert(a.contains(y));
        let i = choose|i: int| 0 <= i < a.len() && a[i] == y;
        let j = choose|j: int| 0 <= j < b.len() && b[j] == x;
        assert(x == y) by {
            if i < a.len() - 1 {
                assert(key_lt(a[i], a[a.len() - 1]));
            }
            if j < b.len() - 1 {
                assert(key_lt(b[j], b[b.len() - 1]));
            }
        }
        let a0 = a.drop_last();
        let b0 = b.drop_last();
        assert forall|k: SortKey| #[trigger] a0.contains(k) <==> b0.contains(k) by {
            if a0.contains(k) {
                let p = choose|p: int| 0 <= p < a0.len() && a0[p] == k;
                assert(a[p] == k);
                assert(key_lt(a[p], a[a.len() - 1]));
                assert(a.contains(k));
                let q = choose|q: int| 0 <= q < b.len() && b[q] == k;
                assert(b0[q] == k);
            }
            if b0.contains(k) {
                let p = choose|p: int| 0 <= p < b0.len() && b0[p] == k;
                assert(b[p] == k);
                assert(key_lt(b[p], b[b.len() - 1]));
                assert(b.contains(k));
                assert(a.contains(k));
                let q = choose|q: int| 0 <= q < a.len() && a[q] == k;
                assert(a0[q] == k);
            }
        }
        assert(increasing(a0)) by {
            assert forall|p: int, q: int| 0 <= p < q < a0.len() implies key_lt(
                #[trigger] a0[p],
                #[trigger] a0[q],
            ) by {
                assert(key_lt(a[p], a[q]));
            }
        }
        assert(increasing(b0)) by {
            assert forall|p: int, q: int| 0 <= p < q < b0.len() implies key_lt(
                #[trigger] b0[p],
                #[trigger] b0[q],
            ) by {
                assert(key_lt(b[p], b[q]));
            }
        }
        lemma_increasing_unique(a0, b0);
        assert(a =~= a0.push(x));
        assert(b =~= b0.push(y));
    }
}

/// An increasing sequence that holds the keys of `keys` is their order.
pub proof fn lemma_sorted_seq_of(s: Seq<SortKey>, keys: Set<SortKey>)
    requires
        is_sorted_seq_of(s, keys),
    ensures
        sorted_seq_of(keys) == s,
{
    let t = sorted_seq_of(keys);
    assert(is_sorted_seq_of(t, keys));
    assert forall|k: SortKey| #[trigger] s.contains(k) <==> t.contains(k) by {}
    lemma_increasing_unique(s, t);
}

/// Whether `a` comes before `b`.
pub fn comes_before(a: &SortKey, b: &SortKey) -> (res: bool)
    ensures
        res == key_lt(*a, *b),
{
    a.rank < b.rank || (a.rank == b.rank && (a.start_time < b.start_time || (a.start_time
        == b.start_time && a.span_id < b.span_id)))
}

/// Puts `key` at its place in the increasing sequence `v`, unless it is
/// there already.
pub fn insert_sorted(v: &mut Vec<SortKey>, key: SortKey)
    requires
        increasing(old(v)@),
    ensures
        increasing(final(v)@),
        forall|k: SortKey| #[trigger] final(v)@.contains(k) <==> old(v)@.contains(k) || k == key,
{
    let mut i: usize = 0;
    while i < v.len() && comes_before(&v[i], &key)
        invariant
            i <= v@.len(),
            v@ == old(v)@,
            forall|j: int| 0 <= j < i ==> key_lt(#[trigger] v@[j], key),
        decreases v@.len() - i,
    {
        i += 1;
    }
    if i < v.len() && !comes_before(&key, &v[i]) {
        assert(v@[i as int] == key);
        assert(v@.contains(key));
        return ;
    }
    let ghost before = v@;
    v.insert(i, key);
    proof {
        let after = v@;
        assert forall|p: int, q: int| 0 <= p < q < after.len() implies key_lt(
            #[trigger] after[p],
            #[trigger] after[q],
        ) by {
            if q < i {
                assert(key_lt(before[p], before[q]));
            } else if q == i {
                assert(key_lt(before[p], key));
            } else if p < i {
                assert(key_lt(before[p], before[q - 1]));
            } else if p == i {
                if q - 1 > i {
                    assert(key_lt(before[i as int], before[q - 1]));
                }
            } else {
                assert(key_lt(before[p - 1], before[q - 1]));
            }
        }
        assert forall|k: SortKey| #[trigger] after.contains(k) <==> before.contains(k) || k
            == key by {
            if after.contains(k) {
                let p = choose|p: int| 0 <= p < after.len() && after[p] == k;
                if p < i {
                    assert(before[p] == k);
                } else if p > i {
                    assert(before[p - 1] == k);
                }
            }
            if before.contains(k) {
                let p = choose|p: int| 0 <= p < before.len() && before[p] == k;
                if p < i {
                    assert(after[p] == k);
                } else {
                    assert(after[p + 1] == k);
                }
            }
            if k == key {
                assert(after[i as int] == k);
            }
        }
    }
}

} // verus!
