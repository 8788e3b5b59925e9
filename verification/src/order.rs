//! Putting scene elements in order.

use vstd::prelude::*;

verus! {

pub open spec fn has_order<E>(order: usize) -> spec_fn((usize, E)) -> bool {
    |item: (usize, E)| item.0 == order
}

/// The items whose order number is `order`, as they follow each other.
pub open spec fn with_order<E>(items: Seq<(usize, E)>, order: usize) -> Seq<(usize, E)> {
    items.filter(has_order(order))
}

/// No item stands behind one with a higher order number.
pub open spec fn ascending<E>(items: Seq<(usize, E)>) -> bool {
    forall|i: int, j: int|
        0 <= i < j < items.len() ==> (#[trigger] items[i]).0 <= (#[trigger] items[j]).0
}

/// `sorted` holds the items of `items` by ascending order number, and items of the same
/// order number follow each other as they did before.
pub open spec fn is_stable_sort<E>(items: Seq<(usize, E)>, sorted: Seq<(usize, E)>) -> bool {
    &&& ascending(sorted)
    &&& sorted.len() == items.len()
    &&& forall|order: usize| #[trigger] with_order(sorted, order) == with_order(items, order)
}

proof fn lemma_filter_none<E>(items: Seq<(usize, E)>, order: usize)
    requires
        forall|i: int| 0 <= i < items.len() ==> (#[trigger] items[i]).0 != order,
    ensures
        with_order(items, order) == Seq::<(usize, E)>::empty(),
    decreases items.len(),
{
    reveal(Seq::filter);
    if items.len() > 0 {
        let init = items.drop_last();
        assert forall|i: int| 0 <= i < init.len() implies (#[trigger] init[i]).0 != order by {
            assert(init[i] == items[i]);
        }
        lemma_filter_none(init, order);
        assert(items.last() == items[items.len() - 1]);
    }
}

proof fn lemma_insert_keeps_order<E>(
    sorted: Seq<(usize, E)>,
    item: (usize, E),
    at: int,
    order: usize,
)
    requires
        0 <= at <= sorted.len(),
        forall|i: int| 0 <= i < at ==> (#[trigger] sorted[i]).0 < item.0,
    ensures
        with_order(sorted.insert(at, item), order) == (if item.0 == order {
            seq![item] + with_order(sorted, order)
        } else {
            with_order(sorted, order)
        }),
{
    let pred = has_order::<E>(order);
    let head = sorted.take(at);
    let tail = sorted.skip(at);
    assert(sorted =~= head + tail);
    assert(sorted.insert(at, item) =~= head + (seq![item] + tail));
    Seq::filter_distributes_over_add(head, tail, pred);
    Seq::filter_distributes_over_add(head, seq![item] + tail, pred);
    Seq::filter_distributes_over_add(seq![item], tail, pred);
    assert(seq![item].filter(pred) =~= if item.0 == order {
        seq![item]
    } else {
        Seq::empty()
    }) by {
        reveal_with_fuel(Seq::filter, 2);
        assert(seq![item].drop_last() =~= Seq::<(usize, E)>::empty());
        assert(seq![item].last() == item);
    }
    if item.0 == order {
        assert forall|i: int| 0 <= i < head.len() implies (#[trigger] head[i]).0 != order by {
            assert(head[i] == sorted[i]);
        }
        lemma_filter_none(head, order);
        assert(head.filter(pred) =~= Seq::<(usize, E)>::empty());
        assert(with_order(sorted.insert(at, item), order) =~= seq![item] + tail.filter(pred));
        assert(with_order(sorted, order) =~= tail.filter(pred));
    } else {
        assert(Seq::<(usize, E)>::empty() + tail.filter(pred) =~= tail.filter(pred));
    }
}

fn insert_in_order<E>(sorted: &mut Vec<(usize, E)>, item: (usize, E))
    requires
        ascending(old(sorted)@),
    ensures
        ascending(final(sorted)@),
        final(sorted)@.len() == old(sorted)@.len() + 1,
        forall|order: usize| #[trigger]
            with_order(final(sorted)@, order) == (if item.0 == order {
                seq![item] + with_order(old(sorted)@, order)
            } else {
                with_order(old(sorted)@, order)
            }),
{
    let mut at: usize = 0;
    while at < sorted.len() && sorted[at].0 < item.0
        invariant
            at <= sorted@.len(),
            forall|i: int| 0 <= i < at ==> (#[trigger] sorted@[i]).0 < item.0,
        decreases sorted@.len() - at,
    {
        at += 1;
    }
    let ghost before = sorted@;
    let ghost added = item;
    sorted.insert(at, item);
    proof {
        assert(sorted@ =~= before.insert(at as int, added));
        assert forall|order: usize| #[trigger] with_order(sorted@, order) == (if added.0 == order {
            seq![added] + with_order(before, order)
        } else {
            with_order(before, order)
        }) by {
            lemma_insert_keeps_order(before, added, at as int, order);
        }
        assert forall|i: int, j: int| 0 <= i < j < sorted@.len() implies (#[trigger] sorted@[i]).0
            <= (#[trigger] sorted@[j]).0 by {
            let p = if i < at {
                i
            } else {
                i - 1
            };
            let q = if j < at {
                j
            } else {
                j - 1
            };
            if i == at {
                if before.len() > at {
                    assert(added.0 <= before[at as int].0);
                    if q > at {
                        assert(before[at as int].0 <= before[q].0);
                    }
                }
            } else if j == at {
                assert(before[p].0 < added.0);
            } else {
                assert(before[p].0 <= before[q].0);
            }
        }
    }
}

/// Sorts by order number; items of the same number keep their order.
pub fn sort_by_order<E>(items: Vec<(usize, E)>) -> (sorted: Vec<(usize, E)>)
    ensures
        is_stable_sort(items@, sorted@),
{
    let ghost all = items@;
    let mut rest: Vec<(usize, E)> = items;
    let mut sorted: Vec<(usize, E)> = Vec::new();
    assert(all.skip(all.len() as int) =~= Seq::<(usize, E)>::empty());
    while rest.len() > 0
        invariant
            rest@.len() <= all.len(),
            rest@ == all.take(rest@.len() as int),
            ascending(sorted@),
            sorted@.len() == all.len() - rest@.len(),
            forall|order: usize| #[trigger]
                with_order(sorted@, order) == with_order(all.skip(rest@.len() as int), order),
        decreases rest@.len(),
    {
        let ghost left = rest@.len() as int;
        let ghost later = sorted@;
        match rest.pop() {
            None => {},
            Some(item) => {
                let ghost added = item;
                insert_in_order(&mut sorted, item);
                proof {
                    assert(added == all[left - 1]);
                    assert(rest@ =~= all.take(left - 1));
                    assert(all.skip(left - 1) =~= seq![added] + all.skip(left));
                    assert forall|order: usize| #[trigger] with_order(sorted@, order)
                        == with_order(all.skip(left - 1), order) by {
                        lemma_insert_keeps_order(all.skip(left), added, 0, order);
                        assert(all.skip(left).insert(0, added) =~= seq![added] + all.skip(left));
                        assert(with_order(later, order) == with_order(all.skip(left), order));
                    }
                }
            },
        }
    }
    assert(all.skip(0) =~= all);
    sorted
}

proof fn lemma_filters_agree<E>(a: Seq<(usize, E)>, b: Seq<(usize, E)>)
    requires
        ascending(a),
        ascending(b),
        a.len() == b.len(),
        forall|order: usize| #[trigger] with_order(a, order) == with_order(b, order),
    ensures
        a == b,
    decreases a.len(),
{
    if a.len() > 0 {
        let last = a.len() - 1;
        let x = a[last];
        let y = b[last];
        reveal(Seq::filter);
        if x.0 < y.0 {
            assert forall|i: int| 0 <= i < a.len() implies (#[trigger] a[i]).0 != y.0 by {
                if i < last {
                    assert(a[i].0 <= a[last].0);
                }
            }
            lemma_filter_none(a, y.0);
            assert(with_order(b, y.0).len() > 0) by {
                assert(b.last() == y);
            }
        } else if y.0 < x.0 {
            assert forall|i: int| 0 <= i < b.len() implies (#[trigger] b[i]).0 != x.0 by {
                if i < last {
                    assert(b[i].0 <= b[last].0);
                }
            }
            lemma_filter_none(b, x.0);
            assert(with_order(a, x.0).len() > 0) by {
                assert(a.last() == x);
            }
        }
        assert(x.0 == y.0);
        assert(with_order(a, x.0).last() == x) by {
            assert(a.last() == x);
        }
        assert(with_order(b, x.0).last() == y) by {
            assert(b.last() == y);
        }
        let a_init = a.drop_last();
        let b_init = b.drop_last();
        assert forall|order: usize| #[trigger] with_order(a_init, order) == with_order(
            b_init,
            order,
        ) by {
            assert(with_order(a, order) == with_order(b, order));
            if order == x.0 {
                assert(with_order(a_init, order) =~= with_order(a, order).drop_last());
                assert(with_order(b_init, order) =~= with_order(b, order).drop_last());
            }
        }
        assert(ascending(a_init)) by {
            assert forall|i: int, j: int| 0 <= i < j < a_init.len() implies (
            #[trigger] a_init[i]).0 <= (#[trigger] a_init[j]).0 by {
                assert(a[i].0 <= a[j].0);
            }
        }
        assert(ascending(b_init)) by {
            assert forall|i: int, j: int| 0 <= i < j < b_init.len() implies (
            #[trigger] b_init[i]).0 <= (#[trigger] b_init[j]).0 by {
                assert(b[i].0 <= b[j].0);
            }
        }
        lemma_filters_agree(a_init, b_init);
        assert(a =~= a_init.push(x));
        assert(b =~= b_init.push(y));
    } else {
        assert(a =~= b);
    }
}

/// There is only one way to sort items by order number that keeps items of the same
/// number as they were.
pub proof fn law_stable_sort_is_unique<E>(
    items: Seq<(usize, E)>,
    a: Seq<(usize, E)>,
    b: Seq<(usize, E)>,
)
    requires
        is_stable_sort(items, a),
        is_stable_sort(items, b),
    ensures
        a == b,
{
    assert forall|order: usize| #[trigger] with_order(a, order) == with_order(b, order) by {
        assert(with_order(a, order) == with_order(items, order));
    }
    lemma_filters_agree(a, b);
}

/// The elements of sorted items.
pub open spec fn elements_of<E>(items: Seq<(usize, E)>) -> Seq<E> {
    items.map_values(|item: (usize, E)| item.1)
}

/// The elements by ascending order number; those of the same number as they were.
pub open spec fn elements_by_order<E>(items: Seq<(usize, E)>) -> Seq<E> {
    elements_of(choose|sorted: Seq<(usize, E)>| #[trigger] is_stable_sort(items, sorted))
}

/// The elements by ascending order number.
pub fn elements_in_order<E>(items: Vec<(usize, E)>) -> (elements: Vec<E>)
    ensures
        elements@ == elements_by_order(items@),
{
    let ghost unsorted = items@;
    let sorted: Vec<(usize, E)> = sort_by_order(items);
    let ghost all = sorted@;
    proof {
        let chosen = choose|chosen: Seq<(usize, E)>| #[trigger] is_stable_sort(unsorted, chosen);
        law_stable_sort_is_unique(unsorted, all, chosen);
    }
    let mut elements: Vec<E> = Vec::new();
    for item in it: sorted
        invariant
            it.seq() == all,
            elements@ =~= elements_of(all.take(it.index() as int)),
    {
        elements.push(item.1);
    }
    assert(all.take(all.len() as int) =~= all);
    elements
}

/// Two items of a list that are both wanted are wanted in the same order.
proof fn lemma_filter_keeps_order<T>(s: Seq<T>, wanted: spec_fn(T) -> bool, i: int, j: int) -> (r: (
    int,
    int,
))
    requires
        0 <= i < j < s.len(),
        wanted(s[i]),
        wanted(s[j]),
    ensures
        0 <= r.0 < r.1 < s.filter(wanted).len(),
        s.filter(wanted)[r.0] == s[i],
        s.filter(wanted)[r.1] == s[j],
{
    let head = s.take(j);
    let tail = s.skip(j);
    assert(s =~= head + tail);
    Seq::filter_distributes_over_add(head, tail, wanted);
    assert(head[i] == s[i] && tail[0] == s[j]);
    head.lemma_filter_contains(wanted, i);
    tail.lemma_filter_contains(wanted, 0);
    let p = choose|p: int| 0 <= p < head.filter(wanted).len() && head.filter(wanted)[p] == s[i];
    let q = choose|q: int| 0 <= q < tail.filter(wanted).len() && tail.filter(wanted)[q] == s[j];
    (p, head.filter(wanted).len() + q)
}

/// Two wanted items were in the list in the same order.
proof fn lemma_filtered_came_in_order<T>(s: Seq<T>, wanted: spec_fn(T) -> bool, p: int, q: int) -> (r:
    (int, int))
    requires
        0 <= p < q < s.filter(wanted).len(),
    ensures
        0 <= r.0 < r.1 < s.len(),
        s[r.0] == s.filter(wanted)[p],
        s[r.1] == s.filter(wanted)[q],
    decreases s.len(),
{
    reveal(Seq::filter);
    let init = s.drop_last();
    if q < init.filter(wanted).len() {
        lemma_filtered_came_in_order(init, wanted, p, q)
    } else {
        assert(s.filter(wanted) == init.filter(wanted).push(s.last()));
        let found = init.filter(wanted)[p];
        assert(init.filter(wanted).contains(found));
        init.lemma_filter_contains_rev(wanted, found);
        let a = choose|a: int| 0 <= a < init.len() && init[a] == found;
        (a, s.len() - 1)
    }
}

/// There is always a way to sort.
proof fn lemma_sort_exists<E>(items: Seq<(usize, E)>) -> (sorted: Seq<(usize, E)>)
    ensures
        is_stable_sort(items, sorted),
    decreases items.len(),
{
    if items.len() == 0 {
        items
    } else {
        let item = items[0];
        let rest = items.skip(1);
        let later = lemma_sort_exists(rest);
        let at = lemma_place_exists(later, item.0, 0);
        let sorted = later.insert(at, item);
        assert(items =~= seq![item] + rest);
        assert(rest.insert(0, item) =~= items);
        assert forall|order: usize| #[trigger] with_order(sorted, order) == with_order(
            items,
            order,
        ) by {
            lemma_insert_keeps_order(later, item, at, order);
            lemma_insert_keeps_order(rest, item, 0, order);
            assert(with_order(later, order) == with_order(rest, order));
        }
        assert forall|i: int, j: int| 0 <= i < j < sorted.len() implies (#[trigger] sorted[i]).0
            <= (#[trigger] sorted[j]).0 by {
            let p = if i < at {
                i
            } else {
                i - 1
            };
            let q = if j < at {
                j
            } else {
                j - 1
            };
            if i == at {
                if later.len() > at && q > at {
                    assert(later[at].0 <= later[q].0);
                }
            } else if j == at {
                assert(later[p].0 < item.0);
            } else {
                assert(later[p].0 <= later[q].0);
            }
        }
        sorted
    }
}

proof fn lemma_place_exists<E>(sorted: Seq<(usize, E)>, order: usize, from: int) -> (at: int)
    requires
        0 <= from <= sorted.len(),
        forall|i: int| 0 <= i < from ==> (#[trigger] sorted[i]).0 < order,
    ensures
        from <= at <= sorted.len(),
        forall|i: int| 0 <= i < at ==> (#[trigger] sorted[i]).0 < order,
        at < sorted.len() ==> sorted[at].0 >= order,
    decreases sorted.len() - from,
{
    if from < sorted.len() && sorted[from].0 < order {
        lemma_place_exists(sorted, order, from + 1)
    } else {
        from
    }
}

proof fn lemma_sorted_holds<E>(items: Seq<(usize, E)>, sorted: Seq<(usize, E)>, item: (usize, E))
    requires
        is_stable_sort(items, sorted),
        items.contains(item),
    ensures
        sorted.contains(item),
{
    let wanted = has_order::<E>(item.0);
    let i = choose|i: int| 0 <= i < items.len() && items[i] == item;
    items.lemma_filter_contains(wanted, i);
    assert(with_order(sorted, item.0) == with_order(items, item.0));
    sorted.lemma_filter_contains_rev(wanted, item);
}

/// Sorting loses nothing, adds nothing, and puts what has the lower number first; of two with
/// the same number, the one that came first stays first.
pub proof fn law_sorting_by_order<E>(
    items: Vec<(usize, E)>,
    sorted: Vec<(usize, E)>,
    item: (usize, E),
    i: int,
    j: int,
)
    requires
        call_ensures(sort_by_order::<E>, (items,), sorted),
    ensures
        sorted@.len() == items@.len(),
        sorted@.contains(item) <==> items@.contains(item),
        0 <= i < j < sorted@.len() ==> sorted@[i].0 <= sorted@[j].0,
        0 <= i < j < items@.len() && items@[i].0 == items@[j].0 ==> exists|a: int, b: int|
            0 <= a < b < sorted@.len() && #[trigger] sorted@[a] == items@[i]
                && #[trigger] sorted@[b] == items@[j],
{
    if items@.contains(item) {
        lemma_sorted_holds(items@, sorted@, item);
    }
    if sorted@.contains(item) {
        let wanted = has_order::<E>(item.0);
        let k = choose|k: int| 0 <= k < sorted@.len() && sorted@[k] == item;
        sorted@.lemma_filter_contains(wanted, k);
        assert(with_order(sorted@, item.0) == with_order(items@, item.0));
        items@.lemma_filter_contains_rev(wanted, item);
    }
    if 0 <= i < j < items@.len() && items@[i].0 == items@[j].0 {
        let wanted = has_order::<E>(items@[i].0);
        let (p, q) = lemma_filter_keeps_order(items@, wanted, i, j);
        assert(with_order(sorted@, items@[i].0) == with_order(items@, items@[i].0));
        let (a, b) = lemma_filtered_came_in_order(sorted@, wanted, p, q);
        assert(sorted@[a] == items@[i] && sorted@[b] == items@[j]);
    }
}

/// Of two items, the one with the lower number stands in front, and of two with the same number
/// the one that came first.
pub proof fn law_elements_stand_by_order<E>(items: Seq<(usize, E)>, i: int, j: int)
    requires
        0 <= i < items.len(),
        0 <= j < items.len(),
        items[i].0 < items[j].0 || items[i].0 == items[j].0 && i < j,
    ensures
        elements_by_order(items).len() == items.len(),
        exists|a: int, b: int|
            0 <= a < b < items.len() && #[trigger] elements_by_order(items)[a] == items[i].1
                && #[trigger] elements_by_order(items)[b] == items[j].1,
{
    let exists_one = lemma_sort_exists(items);
    assert(is_stable_sort(items, exists_one));
    let sorted = choose|sorted: Seq<(usize, E)>| #[trigger] is_stable_sort(items, sorted);
    assert(items.contains(items[i]) && items.contains(items[j]));
    if items[i].0 < items[j].0 {
        lemma_sorted_holds(items, sorted, items[i]);
        lemma_sorted_holds(items, sorted, items[j]);
        let a = choose|a: int| 0 <= a < sorted.len() && sorted[a] == items[i];
        let b = choose|b: int| 0 <= b < sorted.len() && sorted[b] == items[j];
        if b <= a {
            if b < a {
                assert(sorted[b].0 <= sorted[a].0);
            }
            assert(false);
        }
        assert(elements_by_order(items)[a] == items[i].1);
        assert(elements_by_order(items)[b] == items[j].1);
    } else {
        let wanted = has_order::<E>(items[i].0);
        let (p, q) = lemma_filter_keeps_order(items, wanted, i, j);
        assert(with_order(sorted, items[i].0) == with_order(items, items[i].0));
        let (a, b) = lemma_filtered_came_in_order(sorted, wanted, p, q);
        assert(elements_by_order(items)[a] == items[i].1);
        assert(elements_by_order(items)[b] == items[j].1);
    }
}

/// Putting in order loses nothing and adds nothing.
pub proof fn law_ordered_elements_are_those_given<E>(items: Seq<(usize, E)>, element: E)
    ensures
        elements_by_order(items).len() == items.len(),
        elements_by_order(items).contains(element) <==> exists|i: int|
            0 <= i < items.len() && (#[trigger] items[i]).1 == element,
{
    let exists_one = lemma_sort_exists(items);
    assert(is_stable_sort(items, exists_one));
    let sorted = choose|sorted: Seq<(usize, E)>| #[trigger] is_stable_sort(items, sorted);
    let elements = elements_by_order(items);
    if elements.contains(element) {
        let k = choose|k: int| 0 <= k < elements.len() && elements[k] == element;
        let item = sorted[k];
        let wanted = has_order::<E>(item.0);
        sorted.lemma_filter_contains(wanted, k);
        assert(with_order(sorted, item.0) == with_order(items, item.0));
        items.lemma_filter_contains_rev(wanted, item);
        let i = choose|i: int| 0 <= i < items.len() && items[i] == item;
        assert(items[i].1 == element);
    }
    if exists|i: int| 0 <= i < items.len() && (#[trigger] items[i]).1 == element {
        let i = choose|i: int| 0 <= i < items.len() && (#[trigger] items[i]).1 == element;
        assert(items.contains(items[i]));
        lemma_sorted_holds(items, sorted, items[i]);
        let k = choose|k: int| 0 <= k < sorted.len() && sorted[k] == items[i];
        assert(elements[k] == element);
    }
}

/// The elements of a list come out by their numbers, none lost.
pub proof fn law_elements_in_order<E>(items: Vec<(usize, E)>, elements: Vec<E>, i: int, j: int)
    requires
        call_ensures(elements_in_order::<E>, (items,), elements),
        0 <= i < items@.len(),
        0 <= j < items@.len(),
        items@[i].0 < items@[j].0 || items@[i].0 == items@[j].0 && i < j,
    ensures
        elements@.len() == items@.len(),
        exists|a: int, b: int|
            0 <= a < b < elements@.len() && #[trigger] elements@[a] == items@[i].1
                && #[trigger] elements@[b] == items@[j].1,
{
    law_elements_stand_by_order(items@, i, j);
    let (a, b) = choose|a: int, b: int|
        0 <= a < b < items@.len() && #[trigger] elements_by_order(items@)[a] == items@[i].1
            && #[trigger] elements_by_order(items@)[b] == items@[j].1;
    assert(elements@[a] == items@[i].1 && elements@[b] == items@[j].1);
}

} // verus!
