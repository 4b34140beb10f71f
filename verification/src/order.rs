//! Stable ordering by an integer key.

use vstd::prelude::*;

verus! {

/// Whether the item with index `a` comes before the item with index `b`: its
/// key is smaller, or the keys are equal and it stood first.
pub open spec fn precedes(keys: Seq<i128>, a: int, b: int) -> bool {
    keys[a] < keys[b] || (keys[a] == keys[b] && a < b)
}

/// Whether `order` lists the indices of `keys`, each once, by ascending key,
/// and those of equal keys as they stood.
pub open spec fn is_stable_order(keys: Seq<i128>, order: Seq<usize>) -> bool {
    &&& order.len() == keys.len()
    &&& forall|p: int| 0 <= p < order.len() ==> (#[trigger] order[p]) < keys.len()
    &&& forall|p: int, q: int|
        0 <= p < q < order.len() ==> precedes(
            keys,
            (#[trigger] order[p]) as int,
            (#[trigger] order[q]) as int,
        )
    &&& forall|j: int| 0 <= j < keys.len() ==> #[trigger] occurs(order, j)
}

/// Whether `order` holds the index `j` at position `p`.
pub open spec fn holds(order: Seq<usize>, p: int, j: int) -> bool {
    0 <= p < order.len() && order[p] == j
}

/// Whether `order` holds the index `j`.
pub open spec fn occurs(order: Seq<usize>, j: int) -> bool {
    exists|p: int| holds(order, p, j)
}

/// The first `count` keys are in stable order.
spec fn ordered_prefix(keys: Seq<i128>, order: Seq<usize>, count: int) -> bool {
    &&& order.len() == count
    &&& forall|p: int| 0 <= p < order.len() ==> (#[trigger] order[p]) < count
    &&& forall|p: int, q: int|
        0 <= p < q < order.len() ==> precedes(
            keys,
            (#[trigger] order[p]) as int,
            (#[trigger] order[q]) as int,
        )
    &&& forall|j: int| 0 <= j < count ==> #[trigger] occurs(order, j)
}

/// Putting the next index at the first place where a larger key stands keeps
/// the order stable.
proof fn lemma_insert_keeps_order(keys: Seq<i128>, order: Seq<usize>, count: int, place: int)
    requires
        0 <= count < keys.len(),
        count <= usize::MAX,
        ordered_prefix(keys, order, count),
        0 <= place <= order.len(),
        forall|q: int| 0 <= q < place ==> keys[(#[trigger] order[q]) as int] <= keys[count],
        place < order.len() ==> keys[order[place] as int] > keys[count],
    ensures
        ordered_prefix(keys, order.insert(place, count as usize), count + 1),
{
    let grown = order.insert(place, count as usize);
    assert forall|p: int, q: int| 0 <= p < q < grown.len() implies precedes(
        keys,
        (#[trigger] grown[p]) as int,
        (#[trigger] grown[q]) as int,
    ) by {
        if q < place {
            assert(grown[p] == order[p] && grown[q] == order[q]);
        } else if q == place {
            assert(grown[p] == order[p]);
        } else if p < place {
            assert(grown[p] == order[p] && grown[q] == order[q - 1]);
        } else if p == place {
            assert(grown[q] == order[q - 1]);
            if q - 1 > place {
                assert(precedes(keys, order[place] as int, order[q - 1] as int));
            }
        } else {
            assert(grown[p] == order[p - 1] && grown[q] == order[q - 1]);
        }
    }
    assert forall|j: int| 0 <= j < count + 1 implies #[trigger] occurs(grown, j) by {
        if j == count {
            assert(holds(grown, place, j));
        } else {
            assert(occurs(order, j));
            let w = choose|w: int| holds(order, w, j);
            if w < place {
                assert(holds(grown, w, j));
            } else {
                assert(holds(grown, w + 1, j));
            }
        }
    }
    assert forall|p: int| 0 <= p < grown.len() implies (#[trigger] grown[p]) < count + 1 by {
        if p < place {
            assert(grown[p] == order[p]);
        } else if p > place {
            assert(grown[p] == order[p - 1]);
        }
    }
}

/// Two stable orders of the same keys agree on their first `count` places.
proof fn lemma_orders_agree(keys: Seq<i128>, first: Seq<usize>, second: Seq<usize>, count: int)
    requires
        is_stable_order(keys, first),
        is_stable_order(keys, second),
        0 <= count <= keys.len(),
    ensures
        forall|p: int| 0 <= p < count ==> first[p] == second[p],
    decreases count,
{
    if count > 0 {
        lemma_orders_agree(keys, first, second, count - 1);
        let m = count - 1;
        let a = first[m] as int;
        let b = second[m] as int;
        if a != b {
            assert(occurs(second, a));
            let q = choose|q: int| holds(second, q, a);
            if q < m {
                assert(first[q] == second[q]);
                assert(precedes(keys, first[q] as int, first[m] as int));
            }
            assert(precedes(keys, second[m] as int, second[q] as int));
            assert(occurs(first, b));
            let r = choose|r: int| holds(first, r, b);
            if r < m {
                assert(first[r] == second[r]);
                assert(precedes(keys, second[r] as int, second[m] as int));
            }
            assert(precedes(keys, first[m] as int, first[r] as int));
        }
    }
}

/// A list of keys has only one stable order.
pub proof fn lemma_stable_order_unique(keys: Seq<i128>, first: Seq<usize>, second: Seq<usize>)
    requires
        is_stable_order(keys, first),
        is_stable_order(keys, second),
    ensures
        first == second,
{
    lemma_orders_agree(keys, first, second, keys.len() as int);
    assert(first =~= second);
}

/// The indices of `keys` in stable ascending order of their keys.
pub fn stable_order(keys: &Vec<i128>) -> (order: Vec<usize>)
    ensures
        is_stable_order(keys@, order@),
{
    let mut order: Vec<usize> = Vec::new();
    let mut i: usize = 0;
    while i < keys.len()
        invariant
            i <= keys@.len(),
            ordered_prefix(keys@, order@, i as int),
        decreases keys@.len() - i,
    {
        let key: i128 = keys[i];
        let mut place: usize = 0;
        while place < order.len() && keys[order[place]] <= key
            invariant
                i < keys@.len(),
                key == keys@[i as int],
                ordered_prefix(keys@, order@, i as int),
                place <= order@.len(),
                forall|q: int| 0 <= q < place ==> keys@[(#[trigger] order@[q]) as int] <= key,
            decreases order@.len() - place,
        {
            place += 1;
        }
        proof {
            lemma_insert_keeps_order(keys@, order@, i as int, place as int);
        }
        order.insert(place, i);
        i += 1;
    }
    order
}

} // verus!
