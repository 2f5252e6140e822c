//! Stable ordering of the positions of a list by an integer key.
//!
//! Both the order in which a household looks at its needs and the order in
//! which it shops for what it lacks are of this kind: smallest key first, and
//! among equal keys the position that stood first stays first.

use vstd::prelude::*;

verus! {

/// Whether position `i` comes before position `j`: by the smaller key, and
/// among equal keys by the smaller position.
pub open spec fn precedes(keys: Seq<u64>, i: usize, j: usize) -> bool {
    keys[i as int] < keys[j as int] || (keys[i as int] == keys[j as int] && i < j)
}

/// `order` with position `i` put behind the last entry whose key is not
/// greater than that of `i`.
pub open spec fn inserted(keys: Seq<u64>, order: Seq<usize>, i: usize) -> Seq<usize>
    decreases order.len(),
{
    if order.len() == 0 {
        seq![i]
    } else if keys[order.last() as int] <= keys[i as int] {
        order.push(i)
    } else {
        inserted(keys, order.drop_last(), i).push(order.last())
    }
}

/// The first `n` positions, ordered.
pub open spec fn ordered_prefix(keys: Seq<u64>, n: nat) -> Seq<usize>
    decreases n,
{
    if n == 0 {
        Seq::empty()
    } else {
        inserted(keys, ordered_prefix(keys, (n - 1) as nat), (n - 1) as usize)
    }
}

/// All positions of `keys`, ordered.
pub open spec fn stable_order(keys: Seq<u64>) -> Seq<usize> {
    ordered_prefix(keys, keys.len())
}

/// Every entry of `order` is a position below `bound`.
pub open spec fn below(order: Seq<usize>, bound: int) -> bool {
    forall|a: int| 0 <= a < order.len() ==> (#[trigger] order[a] as int) < bound
}

/// Each entry of `order` precedes every entry behind it.
pub open spec fn ascending(keys: Seq<u64>, order: Seq<usize>) -> bool {
    forall|a: int, b: int|
        0 <= a < b < order.len() ==> precedes(keys, #[trigger] order[a], #[trigger] order[b])
}

proof fn lemma_inserted(keys: Seq<u64>, order: Seq<usize>, i: usize)
    requires
        (i as int) < keys.len(),
        below(order, i as int),
        ascending(keys, order),
    ensures
        inserted(keys, order, i).len() == order.len() + 1,
        below(inserted(keys, order, i), i + 1),
        ascending(keys, inserted(keys, order, i)),
        inserted(keys, order, i).contains(i),
        forall|a: int| 0 <= a < order.len() ==> inserted(keys, order, i).contains(order[a]),
        forall|b: int|
            0 <= b < inserted(keys, order, i).len() ==> #[trigger] inserted(keys, order, i)[b]
                == i || order.contains(inserted(keys, order, i)[b]),
    decreases order.len(),
{
    let out = inserted(keys, order, i);
    if order.len() == 0 {
        assert(out[0] == i);
    } else if keys[order.last() as int] <= keys[i as int] {
        assert(out[order.len() as int] == i);
        assert forall|a: int| 0 <= a < order.len() implies out.contains(order[a]) by {
            assert(out[a] == order[a]);
        }
        assert forall|a: int, b: int| 0 <= a < b < out.len() implies precedes(
            keys,
            #[trigger] out[a],
            #[trigger] out[b],
        ) by {
            if b == order.len() {
                assert(precedes(keys, order[a], order.last()) || a == order.len() - 1);
            }
        }
    } else {
        let front = order.drop_last();
        let last = order.last();
        assert(below(front, i as int)) by {
            assert forall|a: int| 0 <= a < front.len() implies (#[trigger] front[a] as int)
                < i by {
                assert(front[a] == order[a]);
            }
        }
        assert(ascending(keys, front)) by {
            assert forall|a: int, b: int| 0 <= a < b < front.len() implies precedes(
                keys,
                #[trigger] front[a],
                #[trigger] front[b],
            ) by {
                assert(front[a] == order[a] && front[b] == order[b]);
            }
        }
        lemma_inserted(keys, front, i);
        let mid = inserted(keys, front, i);
        assert(out == mid.push(last));
        assert(out[mid.len() as int] == last);
        assert(out.contains(i)) by {
            let w = choose|w: int| 0 <= w < mid.len() && mid[w] == i;
            assert(out[w] == i);
        }
        assert forall|a: int| 0 <= a < order.len() implies out.contains(order[a]) by {
            if a < front.len() {
                assert(front[a] == order[a]);
                assert(mid.contains(front[a]));
                let w = choose|w: int| 0 <= w < mid.len() && mid[w] == front[a];
                assert(out[w] == order[a]);
            } else {
                assert(out[mid.len() as int] == order[a]);
            }
        }
        assert forall|b: int| 0 <= b < out.len() implies #[trigger] out[b] == i || order.contains(
            out[b],
        ) by {
            if b < mid.len() {
                assert(out[b] == mid[b]);
                if mid[b] != i {
                    assert(front.contains(mid[b]));
                    let w = choose|w: int| 0 <= w < front.len() && front[w] == mid[b];
                    assert(order[w] == mid[b]);
                }
            } else {
                assert(order[order.len() - 1] == last);
            }
        }
        assert forall|a: int| 0 <= a < out.len() implies (#[trigger] out[a] as int) < i + 1 by {
            if a < mid.len() {
                assert(out[a] == mid[a]);
            }
        }
        assert forall|a: int, b: int| 0 <= a < b < out.len() implies precedes(
            keys,
            #[trigger] out[a],
            #[trigger] out[b],
        ) by {
            if b < mid.len() {
                assert(out[a] == mid[a] && out[b] == mid[b]);
            } else {
                assert(out[a] == mid[a]);
                if mid[a] == i {
                } else {
                    assert(front.contains(mid[a]));
                    let w = choose|w: int| 0 <= w < front.len() && front[w] == mid[a];
                    assert(order[w] == mid[a]);
                    assert(precedes(keys, order[w], order[order.len() - 1]));
                }
            }
        }
    }
}

/// The order of the first `n` positions holds each of them, and nothing else,
/// with each entry preceding those behind it.
pub proof fn lemma_ordered_prefix(keys: Seq<u64>, n: nat)
    requires
        n <= keys.len(),
        n <= usize::MAX,
    ensures
        ordered_prefix(keys, n).len() == n,
        below(ordered_prefix(keys, n), n as int),
        ascending(keys, ordered_prefix(keys, n)),
        forall|i: usize| (i as int) < n ==> ordered_prefix(keys, n).contains(i),
    decreases n,
{
    if n > 0 {
        let m = (n - 1) as nat;
        let before = ordered_prefix(keys, m);
        lemma_ordered_prefix(keys, m);
        lemma_inserted(keys, before, m as usize);
        let out = ordered_prefix(keys, n);
        assert forall|i: usize| (i as int) < n implies out.contains(i) by {
            if i < m {
                assert(before.contains(i));
                let w = choose|w: int| 0 <= w < before.len() && before[w] == i;
                assert(out.contains(before[w]));
            }
        }
    }
}

/// The stable order is a rearrangement of the positions: it has as many
/// entries as there are keys, each entry is a position, and every position is
/// among them. Each entry precedes every entry behind it, so that no position
/// occurs twice, keys never fall along the order, and positions with equal
/// keys keep the order in which they stood.
pub proof fn lemma_stable_order(keys: Seq<u64>)
    requires
        keys.len() <= usize::MAX,
    ensures
        stable_order(keys).len() == keys.len(),
        below(stable_order(keys), keys.len() as int),
        ascending(keys, stable_order(keys)),
        forall|i: usize| (i as int) < keys.len() ==> stable_order(keys).contains(i),
        forall|a: int, b: int|
            0 <= a < b < keys.len() ==> #[trigger] stable_order(keys)[a] != #[trigger] stable_order(
                keys,
            )[b],
{
    lemma_ordered_prefix(keys, keys.len());
    let order = stable_order(keys);
    assert forall|a: int, b: int| 0 <= a < b < keys.len() implies #[trigger] order[a]
        != #[trigger] order[b] by {
        assert(precedes(keys, order[a], order[b]));
    }
}

/// Puts position `i` into `order` behind the last entry whose key is not
/// greater.
fn insert_position(keys: &Vec<u64>, order: &mut Vec<usize>, i: usize)
    requires
        (i as int) < keys@.len(),
        below(old(order)@, keys@.len() as int),
    ensures
        final(order)@ == inserted(keys@, old(order)@, i),
{
    let ghost before = order@;
    let mut pos: usize = order.len();
    order.push(i);
    proof {
        assert(before.subrange(0, pos as int) =~= before);
        assert(inserted(keys@, before, i) + before.subrange(pos as int, before.len() as int)
            =~= inserted(keys@, before, i));
    }
    while pos > 0 && keys[order[pos - 1]] > keys[i]
        invariant
            (i as int) < keys@.len(),
            below(before, keys@.len() as int),
            0 <= pos <= before.len(),
            order@.len() == before.len() + 1,
            forall|a: int| 0 <= a < pos ==> order@[a] == before[a],
            forall|a: int| pos < a <= before.len() ==> order@[a] == before[a - 1],
            inserted(keys@, before, i) == inserted(keys@, before.subrange(0, pos as int), i)
                + before.subrange(pos as int, before.len() as int),
        decreases pos,
    {
        let moved = order[pos - 1];
        order.set(pos, moved);
        proof {
            let head = before.subrange(0, pos as int);
            assert(head.last() == before[pos - 1]);
            assert(head.drop_last() =~= before.subrange(0, pos - 1));
            assert(inserted(keys@, head, i) == inserted(keys@, head.drop_last(), i).push(
                head.last(),
            ));
            assert(inserted(keys@, head.drop_last(), i).push(head.last()) + before.subrange(
                pos as int,
                before.len() as int,
            ) =~= inserted(keys@, head.drop_last(), i) + before.subrange(
                pos - 1,
                before.len() as int,
            ));
        }
        pos = pos - 1;
    }
    order.set(pos, i);
    proof {
        let head = before.subrange(0, pos as int);
        if pos > 0 {
            assert(head.last() == before[pos - 1]);
        }
        assert(inserted(keys@, head, i) == head.push(i));
        assert(order@ =~= head.push(i) + before.subrange(pos as int, before.len() as int));
    }
}

/// The positions of `keys`, smallest key first; positions with equal keys stay
/// in the order in which they stand.
pub fn stable_order_of(keys: &Vec<u64>) -> (order: Vec<usize>)
    ensures
        order@ == stable_order(keys@),
{
    let mut order: Vec<usize> = Vec::new();
    let mut i: usize = 0;
    while i < keys.len()
        invariant
            0 <= i <= keys@.len(),
            order@ == ordered_prefix(keys@, i as nat),
        decreases keys@.len() - i,
    {
        proof {
            lemma_ordered_prefix(keys@, i as nat);
            assert forall|a: int| 0 <= a < order@.len() implies (#[trigger] order@[a] as int)
                < keys@.len() by {}
        }
        insert_position(keys, &mut order, i);
        i = i + 1;
    }
    order
}

} // verus!
