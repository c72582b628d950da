//! What is meant by the order of texts, by place and code point.

use vstd::prelude::*;
use vstd::seq_lib::group_to_multiset_ensures;

use crate::order::{
    index_range, is_sorted, is_stable_order, stable_order_is_permutation, text_less,
    text_less_irreflexive,
};

verus! {

/// Of two texts that agree on their first `i` characters and differ at `i`, the one with the smaller
/// code point there stands first.
pub proof fn first_difference_decides(a: Seq<char>, b: Seq<char>, i: int)
    requires
        0 <= i < a.len(),
        i < b.len(),
        forall|k: int| 0 <= k < i ==> #[trigger] a[k] == b[k],
        a[i] != b[i],
    ensures
        text_less(a, b) <==> (a[i] as int) < (b[i] as int),
    decreases i,
{
    if i > 0 {
        assert(a[0] == b[0]);
        let x = a.drop_first();
        let y = b.drop_first();
        assert forall|k: int| 0 <= k < i - 1 implies #[trigger] x[k] == y[k] by {
            assert(x[k] == a[k + 1] && y[k] == b[k + 1]);
            assert(a[k + 1] == b[k + 1]);
        }
        assert(x[i - 1] == a[i] && y[i - 1] == b[i]);
        first_difference_decides(x, y, i - 1);
    }
}

/// A text stands before every longer one that it opens, and after none of them; and not before itself.
pub proof fn prefix_stands_first(a: Seq<char>, rest: Seq<char>)
    ensures
        rest.len() > 0 ==> text_less(a, a + rest),
        !text_less(a + rest, a),
    decreases a.len(),
{
    if a.len() > 0 {
        assert((a + rest)[0] == a[0]);
        assert((a + rest).drop_first() =~= a.drop_first() + rest);
        prefix_stands_first(a.drop_first(), rest);
    } else {
        assert(a + rest =~= rest);
    }
}

/// In a sorted list no text has, at the first place where they differ, a greater code point than one
/// behind it, and none that goes on behind the other's end stands before that one.
pub proof fn sorted_by_place(list: Seq<Seq<char>>, k: int, l: int, i: int)
    requires
        is_sorted(list),
        0 <= k < l < list.len(),
        0 <= i <= list[k].len(),
        i <= list[l].len(),
        forall|j: int| 0 <= j < i ==> #[trigger] list[k][j] == list[l][j],
    ensures
        i < list[k].len() && i < list[l].len() ==> (list[k][i] as int) <= (list[l][i] as int),
        i == list[l].len() ==> i == list[k].len(),
{
    let a = list[k];
    let b = list[l];
    if i < a.len() && i < b.len() && a[i] != b[i] {
        assert forall|j: int| 0 <= j < i implies #[trigger] b[j] == a[j] by {
            assert(a[j] == b[j]);
        }
        first_difference_decides(b, a, i);
    }
    if i == b.len() && i < a.len() {
        let rest = a.skip(i);
        assert(a =~= b + rest) by {
            assert forall|j: int| 0 <= j < a.len() implies a[j] == (b + rest)[j] by {
                if j < i {
                    assert(list[k][j] == list[l][j]);
                }
            }
        }
        prefix_stands_first(b, rest);
    }
}

/// The order of a stable sort holds every index once; and of two items the one with the smaller key
/// comes first, or, where the keys are the same, the one that came first.
pub proof fn stable_order_by_key(keys: Seq<Seq<char>>, order: Seq<usize>, k: int, l: int)
    requires
        is_stable_order(keys, order),
        0 <= k < l < order.len(),
    ensures
        order.len() == keys.len(),
        order[k] < keys.len(),
        order[l] < keys.len(),
        order[k] != order[l],
        text_less(keys[order[k] as int], keys[order[l] as int]) || (keys[order[k] as int] == keys[order[l] as int]
            && order[k] < order[l]),
{
    text_less_irreflexive(keys[order[k] as int]);
}

/// Every index is somewhere in the order of a stable sort.
pub proof fn every_index_is_placed(keys: Seq<Seq<char>>, order: Seq<usize>, j: int)
    requires
        is_stable_order(keys, order),
        keys.len() <= usize::MAX,
        0 <= j < keys.len(),
    ensures
        exists|k: int| 0 <= k < order.len() && #[trigger] order[k] == j,
{
    broadcast use group_to_multiset_ensures;

    stable_order_is_permutation(keys, order);
    let all = index_range(0, keys.len() as int);
    assert(all[j] == j as usize);
    assert(all.contains(j as usize));
    assert(all.to_multiset().count(j as usize) > 0);
    assert(order.to_multiset().count(j as usize) > 0);
    assert(order.contains(j as usize));
    let k = choose|k: int| 0 <= k < order.len() && order[k] == j as usize;
    assert(order[k] == j);
}

} // verus!
