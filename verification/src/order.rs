//! Ordering of texts, and the stable sort by it.

use vstd::prelude::*;
use vstd::seq_lib::group_to_multiset_ensures;
use vstd::seq_lib::lemma_multiset_commutative;

use crate::text::chars_of;

verus! {

/// `a` stands before `b` in the order of texts: at the first place where they differ
/// `a` has the smaller code point, or `a` ends there.
pub open spec fn text_less(a: Seq<char>, b: Seq<char>) -> bool
    decreases a.len(),
{
    if b.len() == 0 {
        false
    } else if a.len() == 0 {
        true
    } else if a[0] != b[0] {
        (a[0] as int) < (b[0] as int)
    } else {
        text_less(a.drop_first(), b.drop_first())
    }
}

/// No text stands before itself.
pub proof fn text_less_irreflexive(a: Seq<char>)
    ensures
        !text_less(a, a),
    decreases a.len(),
{
    if a.len() > 0 {
        text_less_irreflexive(a.drop_first());
    }
}

/// The order of texts is transitive.
pub proof fn text_less_transitive(a: Seq<char>, b: Seq<char>, c: Seq<char>)
    requires
        text_less(a, b),
        text_less(b, c),
    ensures
        text_less(a, c),
    decreases a.len(),
{
    if a.len() > 0 && b.len() > 0 && c.len() > 0 && a[0] == b[0] && b[0] == c[0] {
        text_less_transitive(a.drop_first(), b.drop_first(), c.drop_first());
    }
}

/// Of two different texts one stands before the other.
pub proof fn text_less_total(a: Seq<char>, b: Seq<char>)
    requires
        a != b,
    ensures
        text_less(a, b) || text_less(b, a),
    decreases a.len(),
{
    if a.len() == 0 || b.len() == 0 {
        if a.len() == 0 && b.len() == 0 {
            assert(a =~= b);
        }
    } else if a[0] == b[0] {
        if a.drop_first() == b.drop_first() {
            assert(a =~= seq![a[0]] + a.drop_first());
            assert(b =~= seq![b[0]] + b.drop_first());
        }
        text_less_total(a.drop_first(), b.drop_first());
    }
}

/// Whether `a` stands before `b`; also whether they are the same.
fn text_order(a: &Vec<char>, b: &Vec<char>) -> (r: (bool, bool))
    ensures
        r.0 == text_less(a@, b@),
        r.1 == (a@ == b@),
{
    let mut i: usize = 0;
    assert(a@.skip(0) =~= a@);
    assert(b@.skip(0) =~= b@);
    while i < a.len() && i < b.len()
        invariant
            i <= a.len(),
            i <= b.len(),
            forall|k: int| 0 <= k < i ==> a@[k] == b@[k],
            text_less(a@, b@) == text_less(a@.skip(i as int), b@.skip(i as int)),
        decreases a.len() - i,
    {
        assert(a@.skip(i as int)[0] == a@[i as int]);
        assert(b@.skip(i as int)[0] == b@[i as int]);
        if a[i] != b[i] {
            let x: char = a[i];
            let y: char = b[i];
            return (x < y, false);
        }
        assert(a@.skip(i as int).drop_first() =~= a@.skip(i + 1));
        assert(b@.skip(i as int).drop_first() =~= b@.skip(i + 1));
        i = i + 1;
    }
    let same: bool = a.len() == b.len();
    proof {
        if same {
            assert(a@ =~= b@);
        }
    }
    (i < b.len(), same)
}

/// The item at index `i` goes before the one at `j`: it has the smaller key, or an equal
/// key and the smaller index.
pub open spec fn goes_before(keys: Seq<Seq<char>>, i: int, j: int) -> bool {
    text_less(keys[i], keys[j]) || (keys[i] == keys[j] && i < j)
}

/// The indices of all keys, each one before all that follow it.
pub open spec fn is_stable_order(keys: Seq<Seq<char>>, order: Seq<usize>) -> bool {
    &&& order.len() == keys.len()
    &&& forall|k: int| 0 <= k < order.len() ==> 0 <= #[trigger] order[k] < keys.len()
    &&& is_ordered(keys, order)
}

/// Each index goes before all that follow it.
pub open spec fn is_ordered(keys: Seq<Seq<char>>, order: Seq<usize>) -> bool {
    forall|k: int, l: int|
        0 <= k < l < order.len() ==> goes_before(keys, #[trigger] order[k] as int, #[trigger] order[l] as int)
}

/// The texts of a list of keys.
pub open spec fn key_texts(keys: Seq<Vec<char>>) -> Seq<Seq<char>> {
    keys.map_values(|k: Vec<char>| k@)
}

proof fn goes_before_transitive(keys: Seq<Seq<char>>, i: int, j: int, k: int)
    requires
        goes_before(keys, i, j),
        goes_before(keys, j, k),
    ensures
        goes_before(keys, i, k),
{
    if text_less(keys[i], keys[j]) && text_less(keys[j], keys[k]) {
        text_less_transitive(keys[i], keys[j], keys[k]);
    }
}

proof fn goes_before_asymmetric(keys: Seq<Seq<char>>, i: int, j: int)
    requires
        goes_before(keys, i, j),
    ensures
        i != j,
        !goes_before(keys, j, i),
{
    text_less_irreflexive(keys[i]);
    if text_less(keys[i], keys[j]) && text_less(keys[j], keys[i]) {
        text_less_transitive(keys[i], keys[j], keys[i]);
    }
}

proof fn goes_before_total(keys: Seq<Seq<char>>, i: int, j: int)
    requires
        i != j,
    ensures
        goes_before(keys, i, j) || goes_before(keys, j, i),
{
    if keys[i] != keys[j] {
        text_less_total(keys[i], keys[j]);
    }
}

/// Whether the item at index `i` goes before the one at `j`.
fn is_before(keys: &Vec<Vec<char>>, i: usize, j: usize) -> (r: bool)
    requires
        i < keys.len(),
        j < keys.len(),
    ensures
        r == goes_before(key_texts(keys@), i as int, j as int),
{
    let (less, same): (bool, bool) = text_order(&keys[i], &keys[j]);
    less || (same && i < j)
}

/// The indices from `lo` up to `hi`.
pub open spec fn index_range(lo: int, hi: int) -> Seq<usize> {
    Seq::new((hi - lo) as nat, |k: int| (lo + k) as usize)
}

/// Two ordered lists of different indices as one.
fn merge(keys: &Vec<Vec<char>>, a: &Vec<usize>, b: &Vec<usize>) -> (r: Vec<usize>)
    requires
        forall|k: int| 0 <= k < a.len() ==> #[trigger] a@[k] < keys.len(),
        forall|k: int| 0 <= k < b.len() ==> #[trigger] b@[k] < keys.len(),
        forall|k: int, l: int| 0 <= k < a.len() && 0 <= l < b.len() ==> #[trigger] a@[k] != #[trigger] b@[l],
        is_ordered(key_texts(keys@), a@),
        is_ordered(key_texts(keys@), b@),
    ensures
        r@.to_multiset() == (a@ + b@).to_multiset(),
        is_ordered(key_texts(keys@), r@),
{
    broadcast use group_to_multiset_ensures;

    let ghost texts = key_texts(keys@);
    let mut r: Vec<usize> = Vec::new();
    let mut i: usize = 0;
    let mut j: usize = 0;
    proof {
        assert(r@ =~= a@.take(0) + b@.take(0));
    }
    while i < a.len() || j < b.len()
        invariant
            texts == key_texts(keys@),
            i <= a.len(),
            j <= b.len(),
            forall|k: int| 0 <= k < a.len() ==> #[trigger] a@[k] < keys.len(),
            forall|k: int| 0 <= k < b.len() ==> #[trigger] b@[k] < keys.len(),
            forall|k: int, l: int|
                0 <= k < a.len() && 0 <= l < b.len() ==> #[trigger] a@[k] != #[trigger] b@[l],
            is_ordered(texts, a@),
            is_ordered(texts, b@),
            is_ordered(texts, r@),
            forall|k: int, l: int|
                0 <= k < r.len() && i <= l < a.len() ==> goes_before(texts, #[trigger] r@[k] as int, #[trigger] a@[l] as int),
            forall|k: int, l: int|
                0 <= k < r.len() && j <= l < b.len() ==> goes_before(texts, #[trigger] r@[k] as int, #[trigger] b@[l] as int),
            r@.to_multiset() == (a@.take(i as int) + b@.take(j as int)).to_multiset(),
        decreases a.len() - i + b.len() - j,
    {
        broadcast use group_to_multiset_ensures;

        let take_a: bool = if i == a.len() {
            false
        } else if j == b.len() {
            true
        } else {
            is_before(keys, a[i], b[j])
        };
        let ghost before = r@;
        if take_a {
            let x: usize = a[i];
            r.push(x);
            proof {
                lemma_multiset_commutative(a@.take(i as int), b@.take(j as int));
                lemma_multiset_commutative(a@.take(i + 1), b@.take(j as int));
                assert(a@.take(i + 1) =~= a@.take(i as int).push(x));
                assert(r@.to_multiset() =~= (a@.take(i + 1) + b@.take(j as int)).to_multiset());
                if j < b.len() {
                    assert forall|l: int| j <= l < b.len() implies goes_before(texts, x as int, #[trigger] b@[l] as int) by {
                        if l > j {
                            goes_before_transitive(texts, x as int, b@[j as int] as int, b@[l] as int);
                        }
                    }
                }
            }
            i = i + 1;
        } else {
            let x: usize = b[j];
            r.push(x);
            proof {
                lemma_multiset_commutative(a@.take(i as int), b@.take(j as int));
                lemma_multiset_commutative(a@.take(i as int), b@.take(j + 1));
                assert(b@.take(j + 1) =~= b@.take(j as int).push(x));
                assert(r@.to_multiset() =~= (a@.take(i as int) + b@.take(j + 1)).to_multiset());
                if i < a.len() {
                    goes_before_total(texts, a@[i as int] as int, x as int);
                    assert forall|l: int| i <= l < a.len() implies goes_before(texts, x as int, #[trigger] a@[l] as int) by {
                        if l > i {
                            goes_before_transitive(texts, x as int, a@[i as int] as int, a@[l] as int);
                        }
                    }
                }
            }
            j = j + 1;
        }
        assert(forall|k: int| 0 <= k < before.len() ==> r@[k] == before[k]);
    }
    proof {
        assert(a@.take(a.len() as int) =~= a@);
        assert(b@.take(b.len() as int) =~= b@);
    }
    r
}

/// The indices from `lo` up to `hi`, in order.
fn order_range(keys: &Vec<Vec<char>>, lo: usize, hi: usize) -> (r: Vec<usize>)
    requires
        lo <= hi <= keys.len(),
    ensures
        r@.to_multiset() == index_range(lo as int, hi as int).to_multiset(),
        is_ordered(key_texts(keys@), r@),
    decreases hi - lo,
{
    broadcast use group_to_multiset_ensures;

    let mut r: Vec<usize> = Vec::new();
    if lo == hi {
        assert(r@ =~= index_range(lo as int, hi as int));
        return r;
    }
    if lo + 1 == hi {
        r.push(lo);
        assert(r@ =~= index_range(lo as int, hi as int));
        return r;
    }
    let mid: usize = lo + (hi - lo) / 2;
    let a: Vec<usize> = order_range(keys, lo, mid);
    let b: Vec<usize> = order_range(keys, mid, hi);
    proof {
        same_members(a@, index_range(lo as int, mid as int));
        same_members(b@, index_range(mid as int, hi as int));
        assert forall|k: int| 0 <= k < a.len() implies lo <= #[trigger] a@[k] < mid by {
            assert(a@.contains(a@[k]));
        }
        assert forall|k: int| 0 <= k < b.len() implies mid <= #[trigger] b@[k] < hi by {
            assert(b@.contains(b@[k]));
        }
        lemma_multiset_commutative(a@, b@);
        lemma_multiset_commutative(
            index_range(lo as int, mid as int),
            index_range(mid as int, hi as int),
        );
        assert(index_range(lo as int, mid as int) + index_range(mid as int, hi as int)
            =~= index_range(lo as int, hi as int));
    }
    merge(keys, &a, &b)
}

proof fn same_members<A>(a: Seq<A>, b: Seq<A>)
    requires
        a.to_multiset() == b.to_multiset(),
    ensures
        a.len() == b.len(),
        forall|x: A| a.contains(x) <==> b.contains(x),
{
    broadcast use group_to_multiset_ensures;

    assert(a.len() == a.to_multiset().len());
    assert(b.len() == b.to_multiset().len());
    assert forall|x: A| a.contains(x) <==> b.contains(x) by {
        assert(a.contains(x) <==> a.to_multiset().count(x) > 0);
        assert(b.contains(x) <==> b.to_multiset().count(x) > 0);
    }
}

/// The order in which a stable sort by the keys puts the items: a permutation of
/// their indices.
pub fn stable_order(keys: &Vec<Vec<char>>) -> (r: Vec<usize>)
    ensures
        is_stable_order(key_texts(keys@), r@),
        r@.to_multiset() == index_range(0, keys@.len() as int).to_multiset(),
{
    let r: Vec<usize> = order_range(keys, 0, keys.len());
    proof {
        same_members(r@, index_range(0, keys@.len() as int));
        assert forall|k: int| 0 <= k < r.len() implies 0 <= #[trigger] r@[k] < keys.len() by {
            assert(r@.contains(r@[k]));
        }
    }
    r
}

/// A stable order holds each index exactly once.
pub proof fn stable_order_is_permutation(keys: Seq<Seq<char>>, order: Seq<usize>)
    requires
        is_stable_order(keys, order),
        keys.len() <= usize::MAX,
    ensures
        order.no_duplicates(),
        order.to_multiset() == index_range(0, keys.len() as int).to_multiset(),
{
    broadcast use group_to_multiset_ensures;
    broadcast use vstd::seq_lib::seq_to_set_is_finite;

    let all = index_range(0, keys.len() as int);
    assert forall|k: int, l: int| 0 <= k < order.len() && 0 <= l < order.len() && k != l implies order[k] != order[l] by {
        if k < l {
            goes_before_asymmetric(keys, order[k] as int, order[l] as int);
        } else {
            goes_before_asymmetric(keys, order[l] as int, order[k] as int);
        }
    }
    assert(all.no_duplicates());
    order.unique_seq_to_set();
    all.unique_seq_to_set();
    assert forall|x: usize| order.to_set().contains(x) implies all.to_set().contains(x) by {
        let k = choose|k: int| 0 <= k < order.len() && order[k] == x;
        assert(all[x as int] == x);
    }
    vstd::set_lib::lemma_subset_equality(order.to_set(), all.to_set());
    order.lemma_multiset_has_no_duplicates();
    all.lemma_multiset_has_no_duplicates();
    assert forall|x: usize| order.to_multiset().count(x) == all.to_multiset().count(x) by {
        assert(order.to_set().contains(x) <==> order.contains(x));
        assert(all.to_set().contains(x) <==> all.contains(x));
        assert(order.to_multiset().contains(x) <==> order.contains(x));
        assert(all.to_multiset().contains(x) <==> all.contains(x));
    }
    assert(order.to_multiset() =~= all.to_multiset());
}

/// The stable order of a list of keys is unique.
pub proof fn stable_order_is_unique(keys: Seq<Seq<char>>, a: Seq<usize>, b: Seq<usize>)
    requires
        is_stable_order(keys, a),
        is_stable_order(keys, b),
        keys.len() <= usize::MAX,
    ensures
        a == b,
{
    stable_order_is_permutation(keys, a);
    stable_order_is_permutation(keys, b);
    let leq = |i: usize, j: usize| i == j || goes_before(keys, i as int, j as int);
    assert forall|i: usize, j: usize| #[trigger] leq(i, j) && #[trigger] leq(j, i) implies i == j by {
        if i != j {
            goes_before_asymmetric(keys, i as int, j as int);
        }
    }
    assert forall|i: usize, j: usize, k: usize| #[trigger] leq(i, j) && #[trigger] leq(j, k) implies leq(i, k) by {
        if i != j && j != k {
            goes_before_transitive(keys, i as int, j as int, k as int);
        }
    }
    assert forall|i: usize, j: usize| #[trigger] leq(i, j) || #[trigger] leq(j, i) by {
        if i != j {
            goes_before_total(keys, i as int, j as int);
        }
    }
    vstd::seq_lib::lemma_sorted_unique(a, b, leq);
}

/// Lists with the same items still have the same items when each is mapped.
proof fn mapped_items_are_the_same<A, B>(a: Seq<A>, b: Seq<A>, f: spec_fn(A) -> B)
    requires
        a.to_multiset() == b.to_multiset(),
    ensures
        a.map_values(f).to_multiset() == b.map_values(f).to_multiset(),
    decreases a.len(),
{
    broadcast use group_to_multiset_ensures;

    same_members(a, b);
    if a.len() == 0 {
        assert(a =~= b);
    } else {
        let x = a.last();
        assert(a.contains(x));
        let k = choose|k: int| 0 <= k < b.len() && b[k] == x;
        let a0 = a.drop_last();
        let b0 = b.remove(k);
        assert(a =~= a0.push(x));
        assert(a0.to_multiset() =~= a.to_multiset().remove(x));
        assert(b0.to_multiset() =~= b.to_multiset().remove(x));
        mapped_items_are_the_same(a0, b0, f);
        assert(a.map_values(f) =~= a0.map_values(f).push(f(x)));
        assert(b.map_values(f).remove(k) =~= b0.map_values(f));
        assert(b.map_values(f)[k] == f(x));
        assert(b.map_values(f).to_multiset() =~= b0.map_values(f).to_multiset().insert(f(x)));
    }
}

/// The texts of a list of strings.
pub open spec fn string_texts(list: Seq<String>) -> Seq<Seq<char>> {
    list.map_values(|t: String| t@)
}

/// What stays of a list depends on how often each of its items is in it, not on their order.
pub proof fn filter_of_multiset<A>(s: Seq<A>, f: spec_fn(A) -> bool)
    ensures
        s.filter(f).to_multiset() == s.to_multiset().filter(f),
    decreases s.len(),
{
    broadcast use group_to_multiset_ensures;

    reveal(Seq::filter);
    if s.len() == 0 {
        assert(s.filter(f).to_multiset() =~= s.to_multiset().filter(f));
    } else {
        let t = s.drop_last();
        filter_of_multiset(t, f);
        assert(s =~= t.push(s.last()));
        assert(s.to_multiset() =~= t.to_multiset().insert(s.last()));
        if f(s.last()) {
            assert(s.filter(f) =~= t.filter(f).push(s.last()));
        }
        assert(s.filter(f).to_multiset() =~= s.to_multiset().filter(f));
    }
}

/// No text stands before one that it follows.
pub open spec fn is_sorted(list: Seq<Seq<char>>) -> bool {
    forall|k: int, l: int| 0 <= k < l < list.len() ==> !text_less(#[trigger] list[l], #[trigger] list[k])
}

/// There is one way only to sort a list of texts.
pub proof fn sorted_texts_are_unique(a: Seq<Seq<char>>, b: Seq<Seq<char>>)
    requires
        is_sorted(a),
        is_sorted(b),
        a.to_multiset() == b.to_multiset(),
    ensures
        a == b,
{
    let leq = |x: Seq<char>, y: Seq<char>| !text_less(y, x);
    assert forall|x: Seq<char>| #[trigger] leq(x, x) by {
        text_less_irreflexive(x);
    }
    assert forall|x: Seq<char>, y: Seq<char>| #[trigger] leq(x, y) && #[trigger] leq(y, x) implies x == y by {
        if x != y {
            text_less_total(x, y);
        }
    }
    assert forall|x: Seq<char>, y: Seq<char>, z: Seq<char>| #[trigger] leq(x, y) && #[trigger] leq(y, z) implies leq(x, z) by {
        if text_less(z, x) {
            if y == z {
            } else {
                text_less_total(y, z);
                text_less_transitive(y, z, x);
            }
        }
    }
    assert forall|x: Seq<char>, y: Seq<char>| #[trigger] leq(x, y) || #[trigger] leq(y, x) by {
        if text_less(y, x) && text_less(x, y) {
            text_less_transitive(x, y, x);
            text_less_irreflexive(x);
        }
    }
    assert forall|k: int, l: int| 0 <= k < l < a.len() implies #[trigger] leq(a[k], a[l]) by {}
    assert forall|k: int, l: int| 0 <= k < l < b.len() implies #[trigger] leq(b[k], b[l]) by {}
    vstd::seq_lib::lemma_sorted_unique(a, b, leq);
}

/// The same texts, sorted.
pub fn sort_texts(list: &Vec<String>) -> (r: Vec<String>)
    ensures
        is_sorted(string_texts(r@)),
        string_texts(r@).to_multiset() == string_texts(list@).to_multiset(),
{
    let mut keys: Vec<Vec<char>> = Vec::new();
    let mut i: usize = 0;
    while i < list.len()
        invariant
            i <= list.len(),
            keys@.len() == i,
            forall|k: int| 0 <= k < i ==> (#[trigger] keys@[k])@ == list@[k]@,
        decreases list.len() - i,
    {
        keys.push(chars_of(list[i].as_str()));
        i = i + 1;
    }
    assert(key_texts(keys@) =~= string_texts(list@));
    let order: Vec<usize> = stable_order(&keys);
    let mut r: Vec<String> = Vec::new();
    let mut k: usize = 0;
    while k < order.len()
        invariant
            k <= order.len(),
            r@.len() == k,
            is_stable_order(string_texts(list@), order@),
            forall|l: int| 0 <= l < k ==> (#[trigger] r@[l])@ == list@[order@[l] as int]@,
        decreases order.len() - k,
    {
        r.push(list[order[k]].clone());
        k = k + 1;
    }
    proof {
        let f = |x: usize| list@[x as int]@;
        assert(string_texts(r@) =~= order@.map_values(f));
        assert(string_texts(list@) =~= index_range(0, list@.len() as int).map_values(f));
        mapped_items_are_the_same(order@, index_range(0, list@.len() as int), f);
        assert forall|k: int, l: int| 0 <= k < l < r@.len() implies !text_less(
            #[trigger] string_texts(r@)[l],
            #[trigger] string_texts(r@)[k],
        ) by {
            goes_before_asymmetric(string_texts(list@), order@[k] as int, order@[l] as int);
        }
    }
    r
}

} // verus!
