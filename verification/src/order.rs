//! Putting things in order of size.

use vstd::prelude::*;

verus! {

/// Where a key goes among those that are in order already: behind all that
/// are as large.
pub open spec fn slot(keys: Seq<u64>, order: Seq<int>, key: u64) -> int
    decreases order.len(),
{
    if order.len() == 0 || keys[order.last()] >= key {
        order.len() as int
    } else {
        slot(keys, order.drop_last(), key)
    }
}

/// The positions of some keys from the largest key to the smallest; equal
/// keys stay as they stand.
pub open spec fn descending(keys: Seq<u64>) -> Seq<int>
    decreases keys.len(),
{
    if keys.len() == 0 {
        Seq::empty()
    } else {
        let before = descending(keys.drop_last());
        before.insert(slot(keys.drop_last(), before, keys.last()), keys.len() - 1)
    }
}

proof fn lemma_slot(keys: Seq<u64>, order: Seq<int>, key: u64)
    ensures
        0 <= slot(keys, order, key) <= order.len(),
        forall|i: int| slot(keys, order, key) <= i < order.len() ==> keys[#[trigger] order[i]] < key,
        slot(keys, order, key) > 0 ==> keys[order[slot(keys, order, key) - 1]] >= key,
    decreases order.len(),
{
    if order.len() > 0 && keys[order.last()] < key {
        lemma_slot(keys, order.drop_last(), key);
        let p = slot(keys, order.drop_last(), key);
        assert forall|i: int| p <= i < order.len() implies keys[#[trigger] order[i]] < key by {
            if i < order.len() - 1 {
                assert(order.drop_last()[i] == order[i]);
            }
        }
        if p > 0 {
            assert(order.drop_last()[p - 1] == order[p - 1]);
        }
    }
}

proof fn lemma_slot_extends(keys: Seq<u64>, more: Seq<u64>, order: Seq<int>, key: u64)
    requires
        more.len() >= keys.len(),
        forall|i: int| 0 <= i < keys.len() ==> #[trigger] more[i] == keys[i],
        forall|i: int| 0 <= i < order.len() ==> 0 <= #[trigger] order[i] < keys.len(),
    ensures
        slot(keys, order, key) == slot(more, order, key),
    decreases order.len(),
{
    if order.len() > 0 {
        assert(0 <= order[order.len() - 1] < keys.len());
        assert forall|i: int| 0 <= i < order.drop_last().len() implies 0 <= #[trigger] order.drop_last()[i]
            < keys.len() by {
            assert(order[i] == order.drop_last()[i]);
        }
        lemma_slot_extends(keys, more, order.drop_last(), key);
    }
}

/// The order lists every position once.
pub proof fn law_order_lists_each_position_once(keys: Seq<u64>)
    ensures
        descending(keys).len() == keys.len(),
        forall|i: int|
            0 <= i < keys.len() ==> 0 <= #[trigger] descending(keys)[i] < keys.len(),
        forall|i: int, j: int|
            0 <= i < j < keys.len() ==> #[trigger] descending(keys)[i] != #[trigger] descending(
                keys,
            )[j],
    decreases keys.len(),
{
    if keys.len() > 0 {
        let front = keys.drop_last();
        let before = descending(front);
        let p = slot(front, before, keys.last());
        let all = descending(keys);
        law_order_lists_each_position_once(front);
        lemma_slot(front, before, keys.last());
        assert forall|i: int| 0 <= i < keys.len() implies 0 <= #[trigger] all[i] < keys.len() by {
            if i < p {
                assert(all[i] == before[i]);
            } else if i > p {
                assert(all[i] == before[i - 1]);
            }
        }
        assert forall|i: int, j: int| 0 <= i < j < keys.len() implies #[trigger] all[i]
            != #[trigger] all[j] by {
            let a = if i < p {
                before[i]
            } else if i == p {
                keys.len() - 1
            } else {
                before[i - 1]
            };
            let b = if j < p {
                before[j]
            } else if j == p {
                keys.len() - 1
            } else {
                before[j - 1]
            };
            assert(all[i] == a && all[j] == b);
        }
    }
}

/// Larger keys come first, and of equal keys the one that stands first.
pub proof fn law_order_descends(keys: Seq<u64>, i: int, j: int)
    requires
        0 <= i < j < keys.len(),
    ensures
        keys[descending(keys)[i]] >= keys[descending(keys)[j]],
        keys[descending(keys)[i]] == keys[descending(keys)[j]] ==> descending(keys)[i]
            < descending(keys)[j],
    decreases keys.len(),
{
    let front = keys.drop_last();
    let before = descending(front);
    let p = slot(front, before, keys.last());
    let all = descending(keys);
    let last = keys.len() - 1;
    law_order_lists_each_position_once(front);
    lemma_slot(front, before, keys.last());
    assert(forall|k: int| 0 <= k < before.len() ==> front[#[trigger] before[k]] == keys[before[k]]);
    if i < p && j == p {
        assert(all[i] == before[i] && all[j] == last);
        if i < p - 1 {
            law_order_descends(front, i, p - 1);
        }
        assert(0 <= before[i] < front.len());
    } else if i == p {
        assert(all[i] == last && all[j] == before[j - 1]);
    } else {
        let a = if i < p {
            i
        } else {
            i - 1
        };
        let b = if j < p {
            j
        } else {
            j - 1
        };
        assert(all[i] == before[a] && all[j] == before[b]);
        law_order_descends(front, a, b);
    }
}

/// The positions of some keys from the largest key to the smallest; equal
/// keys stay as they stand.
pub fn descending_order(keys: &Vec<u64>) -> (out: Vec<usize>)
    ensures
        out@.len() == keys@.len(),
        forall|i: int|
            0 <= i < out@.len() ==> #[trigger] out@[i] as int == descending(keys@)[i] && out@[i]
                < keys@.len(),
{
    let mut out: Vec<usize> = Vec::new();
    let mut n: usize = 0;
    while n < keys.len()
        invariant
            n <= keys@.len(),
            out@.len() == n,
            forall|i: int|
                0 <= i < n ==> #[trigger] out@[i] as int == descending(keys@.take(n as int))[i]
                    && out@[i] < n,
        decreases keys@.len() - n,
    {
        let ghost front = keys@.take(n as int);
        let ghost before = descending(front);
        let key: u64 = keys[n];
        proof {
            law_order_lists_each_position_once(front);
            lemma_slot_extends(front, keys@, before, key);
            lemma_slot(front, before, key);
        }
        let mut p: usize = out.len();
        assert(before.take(p as int) =~= before);
        while p > 0 && keys[out[p - 1]] < key
            invariant
                p <= out@.len(),
                n < keys@.len(),
                out@.len() == n == before.len(),
                forall|i: int| 0 <= i < n ==> #[trigger] out@[i] as int == before[i] && out@[i] < n,
                slot(keys@, before, key) == slot(keys@, before.take(p as int), key),
            decreases p,
        {
            assert(before.take(p as int).last() == out@[p - 1] as int);
            assert(before.take(p as int).drop_last() =~= before.take(p - 1));
            p = p - 1;
        }
        if p > 0 {
            assert(before.take(p as int).last() == out@[p - 1] as int);
        }
        assert(p == slot(front, before, key));
        let ghost old_out = out@;
        out.insert(p, n);
        n = n + 1;
        proof {
            assert(keys@.take(n as int).drop_last() =~= front);
            assert(keys@.take(n as int).last() == key);
            let all = descending(keys@.take(n as int));
            assert(all == before.insert(p as int, n - 1));
            assert forall|i: int| 0 <= i < n implies #[trigger] out@[i] as int == all[i] && out@[i]
                < n by {
                if i < p {
                    assert(out@[i] == old_out[i]);
                } else if i > p {
                    assert(out@[i] == old_out[i - 1]);
                }
            }
        }
    }
    assert(keys@.take(keys@.len() as int) =~= keys@);
    out
}

} // verus!
