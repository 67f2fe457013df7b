//! Stable ordering of items by text keys.
use vstd::prelude::*;
use crate::audio::text::{chars_precede, precedes, lemma_precedes_irreflexive,
    lemma_precedes_transitive, lemma_precedes_total};

verus! {

/// Item `i` goes before item `j` when sorting stably by `keys`: its key is
/// smaller, or the keys are equal and it came first.
pub open spec fn ranks_before(keys: Seq<Seq<char>>, i: int, j: int) -> bool {
    precedes(keys[i], keys[j]) || (keys[i] == keys[j] && i < j)
}

/// `order` lists every index of `keys` exactly once, in the order of a stable
/// sort by key.
pub open spec fn is_stable_order(keys: Seq<Seq<char>>, order: Seq<usize>) -> bool {
    &&& order.len() == keys.len()
    &&& forall|k: int| 0 <= k < order.len() ==> #[trigger] order[k] < keys.len()
    &&& forall|a: int, b: int|
        0 <= a < b < order.len() ==> #[trigger] order[a] != #[trigger] order[b]
    &&& forall|a: int, b: int|
        0 <= a < b < order.len() ==> ranks_before(keys, #[trigger] order[a] as int, #[trigger] order[b] as int)
}

/// The positions of `keys` in the order of a stable sort by key.
pub fn stable_order(keys: &Vec<Vec<char>>) -> (order: Vec<usize>)
    ensures
        is_stable_order(keys@.map_values(|k: Vec<char>| k@), order@),
{
    let ghost kv = keys@.map_values(|k: Vec<char>| k@);
    let mut order: Vec<usize> = Vec::new();
    let n = keys.len();
    let mut i: usize = 0;
    while i < n
        invariant
            n == keys.len(),
            kv == keys@.map_values(|k: Vec<char>| k@),
            i <= n,
            order.len() == i,
            forall|k: int| 0 <= k < order.len() ==> #[trigger] order[k] < i,
            forall|a: int, b: int|
                0 <= a < b < order.len() ==> #[trigger] order[a] != #[trigger] order[b],
            forall|a: int, b: int|
                0 <= a < b < order.len() ==> ranks_before(kv, #[trigger] order[a] as int, #[trigger] order[b] as int),
        decreases n - i,
    {
        let mut p: usize = 0;
        while p < order.len() && !chars_precede(&keys[i], &keys[order[p]])
            invariant
                n == keys.len(),
                kv == keys@.map_values(|k: Vec<char>| k@),
                i < n,
                order.len() == i,
                forall|k: int| 0 <= k < order.len() ==> #[trigger] order[k] < i,
                p <= order.len(),
                forall|q: int| 0 <= q < p ==> !precedes(kv[i as int], kv[#[trigger] order[q] as int]),
            decreases order.len() - p,
        {
            p = p + 1;
        }
        let ghost old_order = order@;
        proof {
            assert forall|q: int| p <= q < old_order.len() implies precedes(kv[i as int], kv[#[trigger] old_order[q] as int]) by {
                if q > p {
                    let x = kv[old_order[p as int] as int];
                    let y = kv[old_order[q] as int];
                    assert(ranks_before(kv, old_order[p as int] as int, old_order[q] as int));
                    if precedes(x, y) {
                        lemma_precedes_transitive(kv[i as int], x, y);
                    }
                }
            }
            assert forall|q: int| 0 <= q < p implies ranks_before(kv, #[trigger] old_order[q] as int, i as int) by {
                let x = kv[old_order[q] as int];
                if x != kv[i as int] {
                    lemma_precedes_total(x, kv[i as int]);
                }
            }
        }
        order.insert(p, i);
        proof {
            assert forall|a: int, b: int|
                0 <= a < b < order.len() implies ranks_before(kv, #[trigger] order@[a] as int, #[trigger] order@[b] as int) by {
                if a < p && b > p {
                    assert(order@[a] == old_order[a]);
                    assert(order@[b] == old_order[b - 1]);
                    assert(ranks_before(kv, old_order[a] as int, old_order[b - 1] as int));
                } else if a < p && b == p {
                    assert(order@[a] == old_order[a]);
                } else if a == p {
                    assert(order@[b] == old_order[b - 1]);
                } else if b < p {
                    assert(order@[a] == old_order[a]);
                    assert(order@[b] == old_order[b]);
                } else {
                    assert(order@[a] == old_order[a - 1]);
                    assert(order@[b] == old_order[b - 1]);
                }
            }
        }
        i = i + 1;
    }
    order
}

} // verus!

verus! {

proof fn lemma_ranks_before_strict(keys: Seq<Seq<char>>, i: int)
    ensures
        !ranks_before(keys, i, i),
{
    lemma_precedes_irreflexive(keys[i]);
}

proof fn lemma_ranks_before_transitive(keys: Seq<Seq<char>>, i: int, j: int, k: int)
    requires
        ranks_before(keys, i, j),
        ranks_before(keys, j, k),
    ensures
        ranks_before(keys, i, k),
{
    if precedes(keys[i], keys[j]) && precedes(keys[j], keys[k]) {
        lemma_precedes_transitive(keys[i], keys[j], keys[k]);
    }
}

/// A stable order mentions every position.
proof fn lemma_order_covers(keys: Seq<Seq<char>>, order: Seq<usize>, x: int)
    requires
        is_stable_order(keys, order),
        0 <= x < keys.len(),
    ensures
        exists|j: int| 0 <= j < order.len() && order[j] as int == x,
{
    let n = keys.len() as int;
    let s = order.map_values(|v: usize| v as int);
    assert forall|a: int, b: int| 0 <= a < s.len() && 0 <= b < s.len() && a != b implies s[a] != s[b] by {
        if a < b {
            assert(order[a] != order[b]);
        } else {
            assert(order[b] != order[a]);
        }
    }
    assert(s.no_duplicates());
    s.unique_seq_to_set();
    vstd::set_lib::lemma_int_range(0, n);
    let range = vstd::set_lib::set_int_range(0, n);
    assert forall|v: int| s.to_set().contains(v) implies range.contains(v) by {
        let j = choose|j: int| 0 <= j < s.len() && s[j] == v;
        assert(order[j] < keys.len());
    }
    vstd::set_lib::lemma_subset_equality(s.to_set(), range);
    assert(range.contains(x));
    assert(s.to_set().contains(x));
    let j = choose|j: int| 0 <= j < s.len() && s[j] == x;
    assert(order[j] as int == x);
}

proof fn lemma_orders_agree_below(keys: Seq<Seq<char>>, o1: Seq<usize>, o2: Seq<usize>, k: int)
    requires
        is_stable_order(keys, o1),
        is_stable_order(keys, o2),
        0 <= k <= o1.len(),
    ensures
        forall|j: int| 0 <= j < k ==> o1[j] == o2[j],
    decreases k,
{
    if k > 0 {
        let p = k - 1;
        lemma_orders_agree_below(keys, o1, o2, p);
        let x = o1[p];
        let y = o2[p];
        lemma_order_covers(keys, o2, x as int);
        lemma_order_covers(keys, o1, y as int);
        let jx = choose|j: int| 0 <= j < o2.len() && o2[j] as int == x as int;
        let jy = choose|j: int| 0 <= j < o1.len() && o1[j] as int == y as int;
        if jx < p {
            assert(o1[jx] == o2[jx]);
            assert(o1[jx] != o1[p]);
        }
        if jy < p {
            assert(o1[jy] == o2[jy]);
            assert(o2[jy] != o2[p]);
        }
        if x != y {
            assert(jx > p);
            assert(jy > p);
            assert(ranks_before(keys, o2[p] as int, o2[jx] as int));
            assert(ranks_before(keys, o1[p] as int, o1[jy] as int));
            lemma_ranks_before_transitive(keys, x as int, y as int, x as int);
            lemma_ranks_before_strict(keys, x as int);
        }
    }
}

/// A stable sort by key has exactly one outcome: two stable orders of the
/// same keys are equal.
pub proof fn law_stable_order_is_unique(keys: Seq<Seq<char>>, o1: Seq<usize>, o2: Seq<usize>)
    requires
        is_stable_order(keys, o1),
        is_stable_order(keys, o2),
    ensures
        o1 == o2,
{
    lemma_orders_agree_below(keys, o1, o2, o1.len() as int);
    assert(o1 =~= o2);
}

/// Position `p` occurs in `order`.
pub open spec fn lists_position(order: Seq<usize>, p: int) -> bool {
    exists|k: int| 0 <= k < order.len() && #[trigger] order[k] == p
}

/// A stable order is a rearrangement: every position of the keys occurs in
/// it.
pub proof fn law_stable_order_lists_every_position(keys: Seq<Seq<char>>, order: Seq<usize>)
    requires
        is_stable_order(keys, order),
    ensures
        forall|p: int| 0 <= p < keys.len() ==> #[trigger] lists_position(order, p),
{
    let n = keys.len() as int;
    let ints = order.map_values(|x: usize| x as int);
    assert forall|i: int, j: int| 0 <= i < ints.len() && 0 <= j < ints.len() && i != j implies ints[i] != ints[j] by {
        if i < j {
            assert(order[i] != order[j]);
        } else {
            assert(order[j] != order[i]);
        }
    }
    assert(ints.no_duplicates());
    ints.unique_seq_to_set();
    let all = vstd::set_lib::set_int_range(0, n);
    vstd::set_lib::lemma_int_range(0, n);
    assert forall|v: int| ints.to_set().contains(v) implies all.contains(v) by {
        let k = choose|k: int| 0 <= k < ints.len() && ints[k] == v;
        assert(order[k] < keys.len());
    }
    ints.lemma_cardinality_of_set();
    vstd::seq_lib::seq_to_set_is_finite(ints);
    vstd::set_lib::lemma_subset_equality(ints.to_set(), all);
    assert forall|p: int| 0 <= p < keys.len() implies #[trigger] lists_position(order, p) by {
        assert(all.contains(p));
        assert(ints.to_set().contains(p));
        let k = choose|k: int| 0 <= k < ints.len() && ints[k] == p;
        assert(order[k] == p);
    }
}

} // verus!
