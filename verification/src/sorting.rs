//! Stable sorting by an integer key: items come out in ascending order of
//! their keys, and items with equal keys keep the order they came in.

use vstd::prelude::*;

verus! {

/// A value that is sorted by an integer key.
pub trait Keyed {
    /// The key by which the value is sorted.
    spec fn sort_key(&self) -> u64;

    /// Computes the key.
    fn key(&self) -> (k: u64)
        ensures
            k == self.sort_key(),
    ;
}

/// The test "has the key `k`".
pub open spec fn key_is<T: Keyed>(k: u64) -> spec_fn(T) -> bool {
    |item: T| item.sort_key() == k
}

/// The items of `s` that have the key `k`, in the order in which they stand
/// in `s`.
pub open spec fn with_key<T: Keyed>(s: Seq<T>, k: u64) -> Seq<T> {
    s.filter(key_is::<T>(k))
}

/// The keys of `s` never go down.
pub open spec fn ascending<T: Keyed>(s: Seq<T>) -> bool {
    forall|i: int, j: int| 0 <= i <= j < s.len() ==> s[i].sort_key() <= s[j].sort_key()
}

/// `output` is `input` sorted stably: its keys never go down, and for every
/// key it holds the same items as `input`, in the same order.
pub open spec fn stably_sorted<T: Keyed>(input: Seq<T>, output: Seq<T>) -> bool {
    &&& ascending(output)
    &&& output.len() == input.len()
    &&& forall|k: u64| #[trigger] with_key(output, k) == with_key(input, k)
}

proof fn lemma_none_with_key<T: Keyed>(s: Seq<T>, k: u64)
    requires
        forall|i: int| 0 <= i < s.len() ==> s[i].sort_key() != k,
    ensures
        with_key(s, k) == Seq::<T>::empty(),
    decreases s.len(),
{
    reveal(Seq::filter);
    if s.len() > 0 {
        lemma_none_with_key(s.drop_last(), k);
    }
}

proof fn lemma_single_with_key<T: Keyed>(item: T, k: u64)
    ensures
        with_key(seq![item], k) == if item.sort_key() == k {
            seq![item]
        } else {
            Seq::<T>::empty()
        },
{
    reveal(Seq::filter);
    let s = seq![item];
    assert(s.drop_last() =~= Seq::<T>::empty());
    assert(s.drop_last().filter(key_is::<T>(k)) =~= Seq::<T>::empty());
    assert(s.last() == item);
    if item.sort_key() == k {
        assert(Seq::<T>::empty().push(item) =~= seq![item]);
    }
}

/// Putting the first of the waiting items into the sorted ones, behind every
/// item whose key is not greater, keeps them sorted and keeps, for every
/// key, the items of that key in their order.
proof fn lemma_place_item<T: Keyed>(sorted: Seq<T>, waiting: Seq<T>, place: int)
    requires
        ascending(sorted),
        waiting.len() > 0,
        0 <= place <= sorted.len(),
        forall|i: int| 0 <= i < place ==> sorted[i].sort_key() <= waiting[0].sort_key(),
        forall|i: int| place <= i < sorted.len() ==> sorted[i].sort_key() > waiting[0].sort_key(),
    ensures
        ascending(sorted.insert(place, waiting[0])),
        forall|k: u64|
            #![trigger with_key(sorted.insert(place, waiting[0]), k)]
            with_key(sorted.insert(place, waiting[0]), k) + with_key(waiting.drop_first(), k)
                == with_key(sorted, k) + with_key(waiting, k),
{
    let item = waiting[0];
    let after = sorted.insert(place, item);
    let low = sorted.subrange(0, place);
    let high = sorted.subrange(place, sorted.len() as int);
    let tail = waiting.drop_first();
    assert(after =~= low + seq![item] + high);
    assert(sorted =~= low + high);
    assert(waiting =~= seq![item] + tail);
    assert forall|i: int, j: int| 0 <= i <= j < after.len() implies after[i].sort_key()
        <= after[j].sort_key() by {
        if j < place {
            assert(after[i] == sorted[i] && after[j] == sorted[j]);
        } else if j == place {
            if i < place {
                assert(after[i] == sorted[i]);
            }
        } else {
            assert(after[j] == sorted[j - 1]);
            if i < place {
                assert(after[i] == sorted[i]);
            } else if i > place {
                assert(after[i] == sorted[i - 1]);
            }
        }
    }
    assert forall|k: u64|
        #![trigger with_key(after, k)]
        with_key(after, k) + with_key(tail, k) == with_key(sorted, k) + with_key(waiting, k) by {
        let p = key_is::<T>(k);
        Seq::filter_distributes_over_add(low + seq![item], high, p);
        Seq::filter_distributes_over_add(low, seq![item], p);
        Seq::filter_distributes_over_add(low, high, p);
        Seq::filter_distributes_over_add(seq![item], tail, p);
        lemma_single_with_key(item, k);
        if item.sort_key() == k {
            lemma_none_with_key(high, k);
            assert(with_key(after, k) =~= with_key(low, k) + seq![item]);
            assert(with_key(sorted, k) =~= with_key(low, k));
            assert(with_key(waiting, k) =~= seq![item] + with_key(tail, k));
            assert(with_key(after, k) + with_key(tail, k) =~= with_key(sorted, k) + with_key(
                waiting,
                k,
            ));
        } else {
            assert(with_key(after, k) =~= with_key(low, k) + with_key(high, k));
            assert(with_key(waiting, k) =~= with_key(tail, k));
        }
    }
}

/// The place in `sorted` behind every item whose key is not greater than
/// `k`.
fn place_behind<T: Keyed>(sorted: &Vec<T>, k: u64) -> (place: usize)
    requires
        ascending(sorted@),
    ensures
        place <= sorted@.len(),
        forall|i: int| 0 <= i < place ==> sorted@[i].sort_key() <= k,
        forall|i: int| place <= i < sorted@.len() ==> sorted@[i].sort_key() > k,
{
    let mut place: usize = 0;
    while place < sorted.len() && sorted[place].key() <= k
        invariant
            place <= sorted@.len(),
            forall|i: int| 0 <= i < place ==> sorted@[i].sort_key() <= k,
        decreases sorted@.len() - place,
    {
        place = place + 1;
    }
    place
}

/// Sorts the items by their keys, ascending and stably: items with equal
/// keys stay in the order in which they came.
pub fn stable_sort<T: Keyed>(items: Vec<T>) -> (sorted: Vec<T>)
    ensures
        stably_sorted(items@, sorted@),
{
    let ghost input = items@;
    let mut waiting = items;
    let mut sorted: Vec<T> = Vec::new();
    proof {
        assert forall|k: u64| #[trigger]
            with_key(sorted@, k) + with_key(waiting@, k) == with_key(input, k) by {
            lemma_none_with_key(sorted@, k);
            assert(Seq::<T>::empty() + with_key(waiting@, k) =~= with_key(waiting@, k));
        }
    }
    while waiting.len() > 0
        invariant
            ascending(sorted@),
            sorted@.len() + waiting@.len() == input.len(),
            forall|k: u64| #[trigger]
                with_key(sorted@, k) + with_key(waiting@, k) == with_key(input, k),
        decreases waiting@.len(),
    {
        let ghost before = sorted@;
        let ghost queue = waiting@;
        let item = waiting.remove(0);
        let place = place_behind(&sorted, item.key());
        proof {
            assert(waiting@ =~= queue.drop_first());
            lemma_place_item(before, queue, place as int);
        }
        sorted.insert(place, item);
        proof {
            assert forall|k: u64| #[trigger]
                with_key(sorted@, k) + with_key(waiting@, k) == with_key(input, k) by {
                assert(with_key(before.insert(place as int, queue[0]), k) + with_key(
                    queue.drop_first(),
                    k,
                ) == with_key(before, k) + with_key(queue, k));
            }
        }
    }
    proof {
        assert forall|k: u64| #[trigger] with_key(sorted@, k) == with_key(input, k) by {
            lemma_none_with_key(waiting@, k);
            assert(with_key(sorted@, k) + Seq::<T>::empty() =~= with_key(sorted@, k));
        }
    }
    sorted
}

/// Sorting neither adds nor drops an item: every item of the sorted list is
/// an item of the input.
pub proof fn lemma_sorted_item_was_given<T: Keyed>(input: Seq<T>, output: Seq<T>, j: int)
    requires
        stably_sorted(input, output),
        0 <= j < output.len(),
    ensures
        input.contains(output[j]),
{
    let k = output[j].sort_key();
    output.lemma_filter_contains(key_is::<T>(k), j);
    assert(with_key(output, k) == with_key(input, k));
    input.lemma_filter_contains_rev(key_is::<T>(k), output[j]);
}

/// Sorting neither adds nor drops an item: every item of the input is an
/// item of the sorted list.
pub proof fn lemma_given_item_is_sorted<T: Keyed>(input: Seq<T>, output: Seq<T>, i: int)
    requires
        stably_sorted(input, output),
        0 <= i < input.len(),
    ensures
        output.contains(input[i]),
{
    let k = input[i].sort_key();
    input.lemma_filter_contains(key_is::<T>(k), i);
    assert(with_key(output, k) == with_key(input, k));
    output.lemma_filter_contains_rev(key_is::<T>(k), input[i]);
}

/// Dropping the last item of a list drops it from the items of its key and
/// leaves the items of every other key as they are.
proof fn lemma_with_key_drop_last<T: Keyed>(s: Seq<T>, k: u64)
    requires
        s.len() > 0,
    ensures
        with_key(s, k) == if s.last().sort_key() == k {
            with_key(s.drop_last(), k).push(s.last())
        } else {
            with_key(s.drop_last(), k)
        },
{
    reveal(Seq::filter);
}

/// The last item of an ascending list has the greatest key that any list
/// with the same items per key holds.
proof fn lemma_last_key_is_greatest<T: Keyed>(a: Seq<T>, b: Seq<T>)
    requires
        ascending(a),
        a.len() > 0,
        b.len() > 0,
        forall|k: u64| #[trigger] with_key(a, k) == with_key(b, k),
    ensures
        b.last().sort_key() <= a.last().sort_key(),
{
    let k = b.last().sort_key();
    b.lemma_filter_contains(key_is::<T>(k), b.len() - 1);
    assert(with_key(a, k) == with_key(b, k));
    a.lemma_filter_contains_rev(key_is::<T>(k), b.last());
    let j = choose|j: int| 0 <= j < a.len() && a[j] == b.last();
    assert(a[j].sort_key() <= a[a.len() - 1].sort_key());
}

/// Two ascending lists that hold, for every key, the same items in the
/// same order are the same list.
pub proof fn lemma_sorted_order_is_unique<T: Keyed>(a: Seq<T>, b: Seq<T>)
    requires
        ascending(a),
        ascending(b),
        a.len() == b.len(),
        forall|k: u64| #[trigger] with_key(a, k) == with_key(b, k),
    ensures
        a == b,
    decreases a.len(),
{
    if a.len() == 0 {
        assert(a =~= b);
    } else {
        lemma_last_key_is_greatest(a, b);
        lemma_last_key_is_greatest(b, a);
        let top = a.last().sort_key();
        lemma_with_key_drop_last(a, top);
        lemma_with_key_drop_last(b, top);
        assert(with_key(a, top) == with_key(b, top));
        assert(with_key(a, top).last() == a.last());
        assert(with_key(b, top).last() == b.last());
        let short_a = a.drop_last();
        let short_b = b.drop_last();
        assert forall|k: u64| #[trigger] with_key(short_a, k) == with_key(short_b, k) by {
            lemma_with_key_drop_last(a, k);
            lemma_with_key_drop_last(b, k);
            assert(with_key(a, k) == with_key(b, k));
            if k == top {
                assert(with_key(short_a, k) =~= with_key(a, k).drop_last());
                assert(with_key(short_b, k) =~= with_key(b, k).drop_last());
            }
        }
        assert forall|i: int, j: int| 0 <= i <= j < short_a.len() implies short_a[i].sort_key()
            <= short_a[j].sort_key() by {
            assert(short_a[i] == a[i] && short_a[j] == a[j]);
        }
        assert forall|i: int, j: int| 0 <= i <= j < short_b.len() implies short_b[i].sort_key()
            <= short_b[j].sort_key() by {
            assert(short_b[i] == b[i] && short_b[j] == b[j]);
        }
        lemma_sorted_order_is_unique(short_a, short_b);
        assert(a =~= short_a.push(a.last()));
        assert(b =~= short_b.push(b.last()));
    }
}

/// A list has one stable sorting only: whatever is sorted stably from the
/// same input is the same list.
pub proof fn lemma_stable_sort_is_unique<T: Keyed>(input: Seq<T>, first: Seq<T>, second: Seq<T>)
    requires
        stably_sorted(input, first),
        stably_sorted(input, second),
    ensures
        first == second,
{
    assert forall|k: u64| #[trigger] with_key(first, k) == with_key(second, k) by {
        assert(with_key(first, k) == with_key(input, k));
        assert(with_key(second, k) == with_key(input, k));
    }
    lemma_sorted_order_is_unique(first, second);
}

} // verus!
