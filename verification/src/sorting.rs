//! Stable sorting by integer keys.
//!
//! Items are sorted by keys that the caller hands over beside them. The
//! order is the one that inserting the items one after the other, each
//! behind every item whose key is not greater, gives: sorted by key, and
//! items of equal key in the order they came in.

use vstd::prelude::*;

verus! {

/// Where an item with the given key goes into keys that are sorted: behind
/// the last key that is not greater.
pub open spec fn insertion_point(keys: Seq<i64>, key: i64) -> int
    decreases keys.len(),
{
    if keys.len() == 0 {
        0
    } else if keys.last() <= key {
        keys.len() as int
    } else {
        insertion_point(keys.drop_last(), key)
    }
}

/// The keys in sorted order.
pub open spec fn sorted_keys(keys: Seq<i64>) -> Seq<i64>
    decreases keys.len(),
{
    if keys.len() == 0 {
        Seq::empty()
    } else {
        let earlier = sorted_keys(keys.drop_last());
        earlier.insert(insertion_point(earlier, keys.last()), keys.last())
    }
}

/// The items in the sorted order of their keys, items of equal key in the
/// order they came in.
pub open spec fn sorted_items<T>(items: Seq<T>, keys: Seq<i64>) -> Seq<T>
    decreases items.len(),
{
    if items.len() == 0 || keys.len() != items.len() {
        Seq::empty()
    } else {
        let earlier = sorted_items(items.drop_last(), keys.drop_last());
        earlier.insert(
            insertion_point(sorted_keys(keys.drop_last()), keys.last()),
            items.last(),
        )
    }
}

/// Whether keys stand in ascending order.
pub open spec fn keys_ascend(keys: Seq<i64>) -> bool {
    forall|i: int, j: int| 0 <= i <= j < keys.len() ==> keys[i] <= keys[j]
}

/// The insertion point lies inside the keys; what stands before it is not
/// greater and, in sorted keys, what stands behind it is greater.
pub proof fn lemma_insertion_point(keys: Seq<i64>, key: i64)
    ensures
        0 <= insertion_point(keys, key) <= keys.len(),
        forall|i: int| insertion_point(keys, key) <= i < keys.len() ==> keys[i] > key,
        keys_ascend(keys) ==> forall|i: int| 0 <= i < insertion_point(keys, key) ==> keys[i] <= key,
    decreases keys.len(),
{
    if keys.len() > 0 && keys.last() > key {
        lemma_insertion_point(keys.drop_last(), key);
        assert forall|i: int| insertion_point(keys, key) <= i < keys.len() implies keys[i] > key by {
            if i < keys.len() - 1 {
                assert(keys.drop_last()[i] == keys[i]);
            }
        }
        if keys_ascend(keys) {
            assert(keys_ascend(keys.drop_last())) by {
                assert forall|i: int, j: int| 0 <= i <= j < keys.drop_last().len() implies keys.drop_last()[i]
                    <= keys.drop_last()[j] by {
                    assert(keys.drop_last()[i] == keys[i]);
                    assert(keys.drop_last()[j] == keys[j]);
                }
            }
            assert forall|i: int| 0 <= i < insertion_point(keys, key) implies keys[i] <= key by {
                assert(keys.drop_last()[i] == keys[i]);
            }
        }
    }
}

/// Sorted keys are as many as the keys, ascend, and hold the same keys.
pub proof fn lemma_sorted_keys(keys: Seq<i64>)
    ensures
        sorted_keys(keys).len() == keys.len(),
        keys_ascend(sorted_keys(keys)),
        sorted_keys(keys).to_multiset() == keys.to_multiset(),
    decreases keys.len(),
{
    broadcast use vstd::seq_lib::group_to_multiset_ensures;

    if keys.len() == 0 {
    } else {
        let earlier = sorted_keys(keys.drop_last());
        let key = keys.last();
        lemma_sorted_keys(keys.drop_last());
        lemma_insertion_point(earlier, key);
        let p = insertion_point(earlier, key);
        let s = earlier.insert(p, key);
        assert forall|i: int, j: int| 0 <= i <= j < s.len() implies s[i] <= s[j] by {
            if i < p && j < p {
            } else if i < p && j == p {
            } else if i < p && j > p {
                assert(s[j] == earlier[j - 1]);
            } else if i == p && j > p {
                assert(s[j] == earlier[j - 1]);
            } else if i > p {
                assert(s[i] == earlier[i - 1]);
                assert(s[j] == earlier[j - 1]);
            }
        }
        vstd::seq_lib::to_multiset_insert(earlier, p, key);
        assert(keys == keys.drop_last().push(key));
        vstd::seq_lib::to_multiset_build(keys.drop_last(), key);
    }
}

/// Sorted items are as many as the items and hold the same items; where each
/// key is what `key_of` gives for its item, the keys of the sorted items are
/// the sorted keys.
pub proof fn lemma_sorted_items<T>(items: Seq<T>, keys: Seq<i64>, key_of: spec_fn(T) -> i64)
    requires
        keys.len() == items.len(),
        forall|i: int| 0 <= i < items.len() ==> keys[i] == key_of(#[trigger] items[i]),
    ensures
        sorted_items(items, keys).len() == items.len(),
        sorted_items(items, keys).to_multiset() == items.to_multiset(),
        forall|i: int|
            0 <= i < items.len() ==> key_of(#[trigger] sorted_items(items, keys)[i]) == sorted_keys(
                keys,
            )[i],
        forall|i: int, j: int|
            0 <= i <= j < items.len() ==> key_of(#[trigger] sorted_items(items, keys)[i]) <= key_of(
                #[trigger] sorted_items(items, keys)[j],
            ),
    decreases items.len(),
{
    broadcast use vstd::seq_lib::group_to_multiset_ensures;

    lemma_sorted_keys(keys);
    if items.len() == 0 {
    } else {
        let earlier = sorted_items(items.drop_last(), keys.drop_last());
        let earlier_keys = sorted_keys(keys.drop_last());
        assert forall|i: int| 0 <= i < items.drop_last().len() implies keys.drop_last()[i] == key_of(
            #[trigger] items.drop_last()[i],
        ) by {
            assert(items.drop_last()[i] == items[i]);
            assert(keys.drop_last()[i] == keys[i]);
        }
        lemma_sorted_items(items.drop_last(), keys.drop_last(), key_of);
        lemma_sorted_keys(keys.drop_last());
        lemma_insertion_point(earlier_keys, keys.last());
        let p = insertion_point(earlier_keys, keys.last());
        let s = earlier.insert(p, items.last());
        let sk = earlier_keys.insert(p, keys.last());
        assert(s == sorted_items(items, keys));
        assert(sk == sorted_keys(keys));
        assert forall|i: int| 0 <= i < items.len() implies key_of(#[trigger] s[i]) == sk[i] by {
            if i < p {
                assert(s[i] == earlier[i]);
            } else if i == p {
            } else {
                assert(s[i] == earlier[i - 1]);
                assert(sk[i] == earlier_keys[i - 1]);
            }
        }
        vstd::seq_lib::to_multiset_insert(earlier, p, items.last());
        assert(items == items.drop_last().push(items.last()));
        vstd::seq_lib::to_multiset_build(items.drop_last(), items.last());
    }
}

/// Sorted items are as many as the items.
pub proof fn lemma_sorted_len<T>(items: Seq<T>, keys: Seq<i64>)
    requires
        keys.len() == items.len(),
    ensures
        sorted_items(items, keys).len() == items.len(),
    decreases items.len(),
{
    if items.len() > 0 {
        lemma_sorted_len(items.drop_last(), keys.drop_last());
        lemma_sorted_keys(keys.drop_last());
        lemma_insertion_point(sorted_keys(keys.drop_last()), keys.last());
    }
}

/// Sorting and then looking at each item through `view` gives what looking
/// first and sorting then gives.
pub proof fn lemma_sorted_items_map<T, U>(items: Seq<T>, keys: Seq<i64>, view: spec_fn(T) -> U)
    requires
        keys.len() == items.len(),
    ensures
        sorted_items(items, keys).map_values(view) == sorted_items(items.map_values(view), keys),
    decreases items.len(),
{
    if items.len() == 0 {
        assert(sorted_items(items, keys).map_values(view) =~= Seq::<U>::empty());
    } else {
        lemma_sorted_items_map(items.drop_last(), keys.drop_last(), view);
        lemma_sorted_len(items.drop_last(), keys.drop_last());
        lemma_sorted_keys(keys.drop_last());
        lemma_insertion_point(sorted_keys(keys.drop_last()), keys.last());
        let p = insertion_point(sorted_keys(keys.drop_last()), keys.last());
        let earlier = sorted_items(items.drop_last(), keys.drop_last());
        assert(items.map_values(view).drop_last() == items.drop_last().map_values(view));
        assert(earlier.insert(p, items.last()).map_values(view) =~= earlier.map_values(view).insert(
            p,
            view(items.last()),
        ));
    }
}

/// Sorting leaves alone what already stands in the order of its keys.
pub proof fn lemma_sorted_stays<T>(items: Seq<T>, keys: Seq<i64>)
    requires
        keys.len() == items.len(),
        keys_ascend(keys),
    ensures
        sorted_keys(keys) == keys,
        sorted_items(items, keys) == items,
    decreases items.len(),
{
    if items.len() == 0 {
        assert(keys =~= Seq::<i64>::empty());
        assert(items =~= Seq::<T>::empty());
    } else {
        let rest = keys.drop_last();
        assert(keys_ascend(rest)) by {
            assert forall|i: int, j: int| 0 <= i <= j < rest.len() implies rest[i] <= rest[j] by {
                assert(rest[i] == keys[i]);
                assert(rest[j] == keys[j]);
            }
        }
        lemma_sorted_stays(items.drop_last(), rest);
        if rest.len() > 0 {
            assert(rest.last() == keys[keys.len() - 2]);
            assert(keys[keys.len() - 2] <= keys[keys.len() - 1]);
        }
        assert(insertion_point(rest, keys.last()) == rest.len());
        assert(rest.insert(rest.len() as int, keys.last()) =~= keys);
        assert(items.drop_last().insert(rest.len() as int, items.last()) =~= items);
    }
}

/// Sorts the items by the keys that stand beside them, items of equal key
/// staying in their order.
pub fn sort_by_keys<T>(items: Vec<T>, keys: Vec<i64>) -> (r: (Vec<T>, Vec<i64>))
    requires
        keys.len() == items.len(),
    ensures
        r.0@ == sorted_items(items@, keys@),
        r.1@ == sorted_keys(keys@),
        r.0.len() == items.len(),
        r.1.len() == items.len(),
{
    let ghost all_items = items@;
    let ghost all_keys = keys@;
    let n = items.len();
    let mut items = items;
    let mut keys = keys;
    let mut pending: Vec<T> = Vec::new();
    let mut pending_keys: Vec<i64> = Vec::new();
    while items.len() > 0
        invariant
            items.len() == keys.len(),
            pending.len() == pending_keys.len(),
            items.len() + pending.len() == n,
            n == all_items.len(),
            all_keys.len() == n,
            forall|i: int| 0 <= i < items.len() ==> (#[trigger] items[i]) == all_items[i],
            forall|i: int| 0 <= i < keys.len() ==> (#[trigger] keys[i]) == all_keys[i],
            forall|i: int| 0 <= i < pending.len() ==> (#[trigger] pending[i]) == all_items[n - 1 - i],
            forall|i: int|
                0 <= i < pending_keys.len() ==> (#[trigger] pending_keys[i]) == all_keys[n - 1 - i],
        decreases items.len(),
    {
        let item = items.pop().unwrap();
        let key = keys.pop().unwrap();
        pending.push(item);
        pending_keys.push(key);
    }
    let mut out: Vec<T> = Vec::new();
    let mut out_keys: Vec<i64> = Vec::new();
    let mut done: usize = 0;
    proof {
        assert(all_items.take(0) =~= Seq::<T>::empty());
        assert(all_keys.take(0) =~= Seq::<i64>::empty());
    }
    while pending.len() > 0
        invariant
            pending.len() == pending_keys.len(),
            done + pending.len() == n,
            n == all_items.len(),
            all_keys.len() == n,
            forall|i: int| 0 <= i < pending.len() ==> (#[trigger] pending[i]) == all_items[n - 1 - i],
            forall|i: int|
                0 <= i < pending_keys.len() ==> (#[trigger] pending_keys[i]) == all_keys[n - 1 - i],
            out@ == sorted_items(all_items.take(done as int), all_keys.take(done as int)),
            out_keys@ == sorted_keys(all_keys.take(done as int)),
            out.len() == done,
            out_keys.len() == done,
        decreases pending.len(),
    {
        let item = pending.pop().unwrap();
        let key = pending_keys.pop().unwrap();
        assert(item == all_items[done as int] && key == all_keys[done as int]);
        let mut p: usize = out_keys.len();
        proof {
            assert(out_keys@.take(p as int) == out_keys@);
        }
        while p > 0 && out_keys[p - 1] > key
            invariant
                p <= out_keys.len(),
                insertion_point(out_keys@, key) == insertion_point(out_keys@.take(p as int), key),
            decreases p,
        {
            proof {
                assert(out_keys@.take(p as int).drop_last() == out_keys@.take(p - 1));
                assert(out_keys@.take(p as int).last() == out_keys@[p - 1]);
            }
            p -= 1;
        }
        proof {
            if p > 0 {
                assert(out_keys@.take(p as int).last() == out_keys@[p - 1]);
            }
            assert(p == insertion_point(out_keys@, key));
            assert(all_items.take(done + 1).drop_last() == all_items.take(done as int));
            assert(all_keys.take(done + 1).drop_last() == all_keys.take(done as int));
            assert(all_items.take(done + 1).last() == item);
            assert(all_keys.take(done + 1).last() == key);
        }
        out.insert(p, item);
        out_keys.insert(p, key);
        done += 1;
    }
    proof {
        assert(all_items.take(n as int) == all_items);
        assert(all_keys.take(n as int) == all_keys);
    }
    (out, out_keys)
}

} // verus!
