//! Shared vocabulary for the mathematical models of the crate's data.

use crate::time::Timestamp;
use vstd::prelude::*;
use vstd::seq_lib::{to_multiset_build, to_multiset_insert};

verus! {

/// The content of every item of a sequence, in order.
pub open spec fn views<T: View>(items: Seq<T>) -> Seq<T::V> {
    items.map_values(|item: T| item@)
}

/// The content of an optional value.
pub open spec fn option_view<T: View>(item: Option<T>) -> Option<T::V> {
    match item {
        Some(inner) => Some(inner@),
        None => None,
    }
}

/// Two sequences have equal content exactly when they agree item by item.
pub proof fn lemma_views_equal<T: View>(left: Seq<T>, right: Seq<T>)
    ensures
        views(left) == views(right) <==> left.len() == right.len() && (forall|i: int|
            #![trigger left[i], right[i]]
            0 <= i < left.len() ==> left[i]@ == right[i]@),
{
    if views(left) == views(right) {
        assert(views(left).len() == left.len());
        assert(views(right).len() == right.len());
        assert forall|i: int| #![trigger left[i], right[i]] 0 <= i < left.len() implies left[i]@
            == right[i]@ by {
            assert(views(left)[i] == views(right)[i]);
        }
    } else if left.len() == right.len() && (forall|i: int|
        #![trigger left[i], right[i]]
        0 <= i < left.len() ==> left[i]@ == right[i]@) {
        assert(views(left) =~= views(right));
    }
}

/// Two sequences are equal exactly when they agree item by item.
pub proof fn lemma_items_equal<T>(left: Seq<T>, right: Seq<T>)
    ensures
        left == right <==> left.len() == right.len() && (forall|i: int|
            #![trigger left[i], right[i]]
            0 <= i < left.len() ==> left[i] == right[i]),
{
    if left.len() == right.len() && (forall|i: int|
        #![trigger left[i], right[i]]
        0 <= i < left.len() ==> left[i] == right[i]) {
        assert(left =~= right);
    }
}

/// Appending an item appends its content.
pub proof fn lemma_views_push<T: View>(items: Seq<T>, item: T)
    ensures
        views(items.push(item)) == views(items).push(item@),
{
    assert(views(items.push(item)) =~= views(items).push(item@));
}

/// Filtering one more item keeps it exactly when it is selected.
pub proof fn lemma_filter_step<T>(items: Seq<T>, index: int, selected: spec_fn(T) -> bool)
    requires
        0 <= index < items.len(),
    ensures
        items.take(index + 1).filter(selected) == if selected(items[index]) {
            items.take(index).filter(selected).push(items[index])
        } else {
            items.take(index).filter(selected)
        },
{
    reveal(Seq::filter);
    let prefix = items.take(index + 1);
    assert(prefix.drop_last() =~= items.take(index));
    assert(prefix.last() == items[index]);
}

/// Every earlier item relates to every later one.
pub open spec fn pairwise<T>(items: Seq<T>, related: spec_fn(T, T) -> bool) -> bool {
    forall|i: int, j: int|
        0 <= i < j < items.len() ==> related(#[trigger] items[i], #[trigger] items[j])
}

/// Filtering one more item keeps it exactly when it is selected.
pub proof fn lemma_filter_push<T>(items: Seq<T>, item: T, selected: spec_fn(T) -> bool)
    ensures
        items.push(item).filter(selected) == if selected(item) {
            items.filter(selected).push(item)
        } else {
            items.filter(selected)
        },
{
    reveal(Seq::filter);
    assert(items.push(item).drop_last() =~= items);
}

/// Filtering keeps the relation between earlier and later items.
pub proof fn lemma_filter_pairwise<T>(
    items: Seq<T>,
    selected: spec_fn(T) -> bool,
    related: spec_fn(T, T) -> bool,
)
    requires
        pairwise(items, related),
    ensures
        pairwise(items.filter(selected), related),
    decreases items.len(),
{
    reveal(Seq::filter);
    if items.len() > 0 {
        let front = items.drop_last();
        assert(pairwise(front, related)) by {
            assert forall|i: int, j: int| 0 <= i < j < front.len() implies related(
                #[trigger] front[i],
                #[trigger] front[j],
            ) by {
                assert(front[i] == items[i] && front[j] == items[j]);
            }
        }
        lemma_filter_pairwise(front, selected, related);
        if selected(items.last()) {
            let kept = front.filter(selected);
            assert(items.filter(selected) =~= kept.push(items.last()));
            assert forall|i: int, j: int| 0 <= i < j < kept.push(items.last()).len() implies related(
                #[trigger] kept.push(items.last())[i],
                #[trigger] kept.push(items.last())[j],
            ) by {
                assert(kept.contains(kept[i]));
                lemma_filter_contains(front, selected, kept[i]);
                let at = choose|at: int| 0 <= at < front.len() && front[at] == kept[i];
                assert(items[at] == kept[i]);
                assert(related(items[at], items[items.len() - 1]));
                if j < kept.len() {
                    assert(related(kept[i], kept[j]));
                }
            }
        }
    }
}

/// What is kept by a filter is what is there and selected.
pub proof fn lemma_filter_contains<T>(items: Seq<T>, selected: spec_fn(T) -> bool, item: T)
    ensures
        items.filter(selected).contains(item) <==> items.contains(item) && selected(item),
    decreases items.len(),
{
    reveal(Seq::filter);
    if items.len() > 0 {
        let front = items.drop_last();
        lemma_filter_contains(front, selected, item);
        let kept = front.filter(selected);
        if front.contains(item) {
            let i = choose|i: int| 0 <= i < front.len() && front[i] == item;
            assert(items[i] == item);
        }
        if items.contains(item) && item != items.last() {
            let i = choose|i: int| 0 <= i < items.len() && items[i] == item;
            assert(front[i] == item);
        }
        if selected(items.last()) {
            assert(items.filter(selected) =~= kept.push(items.last()));
            if kept.contains(item) {
                let i = choose|i: int| 0 <= i < kept.len() && kept[i] == item;
                assert(kept.push(items.last())[i] == item);
            }
            assert(kept.push(items.last())[kept.len() as int] == items.last());
            if kept.push(items.last()).contains(item) && item != items.last() {
                let i = choose|i: int|
                    0 <= i < kept.push(items.last()).len() && kept.push(items.last())[i] == item;
                assert(kept[i] == item);
            }
        }
        assert(items[items.len() - 1] == items.last());
    }
}

/// Filtering one item keeps it exactly when it is selected.
pub proof fn lemma_filter_one<T>(item: T, selected: spec_fn(T) -> bool)
    ensures
        seq![item].filter(selected) == if selected(item) {
            seq![item]
        } else {
            Seq::empty()
        },
{
    reveal(Seq::filter);
    assert(seq![item].drop_last() =~= Seq::<T>::empty());
    assert(seq![item].last() == item);
    assert(Seq::<T>::empty().filter(selected) =~= Seq::<T>::empty());
    assert(Seq::<T>::empty().push(item) =~= seq![item]);
}

/// Filters that agree on every item keep the same.
pub proof fn lemma_filter_congruent<T>(
    items: Seq<T>,
    left: spec_fn(T) -> bool,
    right: spec_fn(T) -> bool,
)
    requires
        forall|i: int| 0 <= i < items.len() ==> left(#[trigger] items[i]) == right(items[i]),
    ensures
        items.filter(left) == items.filter(right),
    decreases items.len(),
{
    reveal(Seq::filter);
    if items.len() > 0 {
        let front = items.drop_last();
        assert forall|i: int| 0 <= i < front.len() implies left(#[trigger] front[i]) == right(
            front[i],
        ) by {
            assert(front[i] == items[i]);
        }
        lemma_filter_congruent(front, left, right);
        assert(left(items[items.len() - 1]) == right(items[items.len() - 1]));
    }
}

/// The first position whose item is selected.
pub open spec fn position<T>(items: Seq<T>, selected: spec_fn(T) -> bool) -> Option<int>
    decreases items.len(),
{
    if items.len() == 0 {
        None
    } else {
        match position(items.drop_last(), selected) {
            Some(index) => Some(index),
            None => if selected(items.last()) {
                Some(items.len() - 1)
            } else {
                None
            },
        }
    }
}

/// `position` finds the first selected item if there is one.
pub proof fn lemma_position<T>(items: Seq<T>, selected: spec_fn(T) -> bool)
    ensures
        match position(items, selected) {
            Some(index) => 0 <= index < items.len() && selected(items[index]) && (forall|i: int|
                0 <= i < index ==> !selected(#[trigger] items[i])),
            None => forall|i: int| 0 <= i < items.len() ==> !selected(#[trigger] items[i]),
        },
    decreases items.len(),
{
    if items.len() > 0 {
        let front = items.drop_last();
        lemma_position(front, selected);
        assert forall|i: int| 0 <= i < front.len() implies front[i] == #[trigger] items[i] by {}
    }
}

/// Whether some item is selected.
pub open spec fn some_item<T>(items: Seq<T>, selected: spec_fn(T) -> bool) -> bool {
    position(items, selected) is Some
}

/// A selected item is found.
pub proof fn lemma_some_item<T>(items: Seq<T>, selected: spec_fn(T) -> bool, index: int)
    requires
        0 <= index < items.len(),
        selected(items[index]),
    ensures
        some_item(items, selected),
{
    lemma_position(items, selected);
}

/// Appending an item that is not selected, or to items that hold a selected
/// one, leaves the first selected position where it was.
pub proof fn lemma_position_push<T>(items: Seq<T>, item: T, selected: spec_fn(T) -> bool)
    ensures
        position(items.push(item), selected) == match position(items, selected) {
            Some(index) => Some(index),
            None => if selected(item) {
                Some(items.len() as int)
            } else {
                None
            },
        },
{
    assert(items.push(item).drop_last() =~= items);
}

/// Replacing an item by one that is selected alike keeps the first position.
pub proof fn lemma_position_update<T>(
    items: Seq<T>,
    index: int,
    item: T,
    selected: spec_fn(T) -> bool,
)
    requires
        0 <= index < items.len(),
        selected(item) == selected(items[index]),
    ensures
        position(items.update(index, item), selected) == position(items, selected),
{
    let changed = items.update(index, item);
    lemma_position(items, selected);
    lemma_position(changed, selected);
    assert forall|i: int| 0 <= i < items.len() implies selected(changed[i]) == selected(
        #[trigger] items[i],
    ) by {}
    match (position(items, selected), position(changed, selected)) {
        (Some(a), Some(b)) => {
            if a < b {
                assert(!selected(changed[a]));
            } else if b < a {
                assert(!selected(items[b]));
            }
        },
        (Some(a), None) => {
            assert(!selected(changed[a]));
        },
        (None, Some(b)) => {
            assert(!selected(items[b]));
        },
        (None, None) => {},
    }
}

/// Replacing an item replaces its content.
pub proof fn lemma_views_update<T: View>(items: Seq<T>, index: int, item: T)
    requires
        0 <= index < items.len(),
    ensures
        views(items.update(index, item)) == views(items).update(index, item@),
{
    assert(views(items.update(index, item)) =~= views(items).update(index, item@));
}

/// A type whose values can be copied out of a table.
pub trait Row: View + Sized {
    /// A value with the same content.
    fn duplicate(&self) -> (res: Self)
        ensures
            res@ == self@,
    ;
}

/// The first position whose item is selected.
pub(crate) fn find<T: View, F: Fn(&T) -> bool>(
    items: &Vec<T>,
    test: F,
    selected: Ghost<spec_fn(T::V) -> bool>,
) -> (res: Option<usize>)
    requires
        forall|item: &T| call_requires(test, (item,)),
        forall|item: &T, answer: bool|
            call_ensures(test, (item,), answer) ==> answer == selected@(item@),
    ensures
        match res {
            Some(index) => position(views(items@), selected@) == Some(index as int) && index
                < items.len() && selected@(items@[index as int]@),
            None => position(views(items@), selected@) is None,
        },
{
    let mut index: usize = 0;
    while index < items.len()
        invariant
            index <= items.len(),
            forall|item: &T| call_requires(test, (item,)),
            forall|item: &T, answer: bool|
                call_ensures(test, (item,), answer) ==> answer == selected@(item@),
            forall|i: int| 0 <= i < index ==> !selected@(#[trigger] views(items@)[i]),
        decreases items.len() - index,
    {
        let answer = test(&items[index]);
        assert(views(items@)[index as int] == items@[index as int]@);
        if answer {
            proof {
                lemma_position(views(items@), selected@);
                let first = position(views(items@), selected@);
                assert(first == Some(index as int)) by {
                    assert(selected@(views(items@)[index as int]));
                    assert(first is Some);
                    if first->Some_0 < index as int {
                        assert(!selected@(views(items@)[first->Some_0]));
                    }
                }
            }
            return Some(index);
        }
        index = index + 1;
    }
    proof {
        lemma_position(views(items@), selected@);
    }
    None
}

/// The first `limit` selected items, in table order.
pub(crate) fn select<T: Row, F: Fn(&T) -> bool>(
    items: &Vec<T>,
    limit: usize,
    test: F,
    selected: Ghost<spec_fn(T::V) -> bool>,
) -> (res: Vec<T>)
    requires
        forall|item: &T| call_requires(test, (item,)),
        forall|item: &T, answer: bool|
            call_ensures(test, (item,), answer) ==> answer == selected@(item@),
    ensures
        views(res@) == first_items(views(items@).filter(selected@), limit as nat),
{
    let mut res: Vec<T> = Vec::new();
    let mut index: usize = 0;
    let ghost all = views(items@);
    proof {
        assert(all.take(0) =~= Seq::<T::V>::empty());
        reveal(Seq::filter);
        assert(views(res@) =~= Seq::<T::V>::empty());
    }
    while index < items.len() && res.len() < limit
        invariant
            index <= items.len(),
            all == views(items@),
            res.len() <= limit,
            forall|item: &T| call_requires(test, (item,)),
            forall|item: &T, answer: bool|
                call_ensures(test, (item,), answer) ==> answer == selected@(item@),
            views(res@) == all.take(index as int).filter(selected@),
        decreases items.len() - index,
    {
        proof {
            lemma_filter_step(all, index as int, selected@);
        }
        if test(&items[index]) {
            let item = items[index].duplicate();
            proof {
                lemma_views_push(res@, item);
            }
            res.push(item);
        }
        index = index + 1;
    }
    proof {
        lemma_filter_prefix(all, index as int, selected@);
        let kept = all.filter(selected@);
        assert(views(res@).len() == res@.len());
        if index < items.len() {
            assert(first_items(kept, limit as nat) =~= views(res@));
        } else {
            assert(all.take(index as int) =~= all);
            assert(first_items(kept, limit as nat) =~= views(res@));
        }
    }
    res
}

/// Whether every earlier item relates to every later one.
pub(crate) fn all_pairs<T: View, F: Fn(&T, &T) -> bool>(
    items: &Vec<T>,
    test: F,
    related: Ghost<spec_fn(T::V, T::V) -> bool>,
) -> (res: bool)
    requires
        forall|left: &T, right: &T| call_requires(test, (left, right)),
        forall|left: &T, right: &T, answer: bool|
            call_ensures(test, (left, right), answer) ==> answer == related@(left@, right@),
    ensures
        res == pairwise(views(items@), related@),
{
    let mut first: usize = 0;
    while first < items.len()
        invariant
            first <= items.len(),
            forall|left: &T, right: &T| call_requires(test, (left, right)),
            forall|left: &T, right: &T, answer: bool|
                call_ensures(test, (left, right), answer) ==> answer == related@(left@, right@),
            forall|i: int, j: int|
                0 <= i < first && i < j < items.len() ==> related@(
                    #[trigger] views(items@)[i],
                    #[trigger] views(items@)[j],
                ),
        decreases items.len() - first,
    {
        let mut second: usize = first + 1;
        while second < items.len()
            invariant
                first < second <= items.len(),
                forall|left: &T, right: &T| call_requires(test, (left, right)),
                forall|left: &T, right: &T, answer: bool|
                    call_ensures(test, (left, right), answer) ==> answer == related@(
                        left@,
                        right@,
                    ),
                forall|j: int|
                    first < j < second ==> related@(
                        views(items@)[first as int],
                        #[trigger] views(items@)[j],
                    ),
            decreases items.len() - second,
        {
            let answer = test(&items[first], &items[second]);
            assert(views(items@)[first as int] == items@[first as int]@);
            assert(views(items@)[second as int] == items@[second as int]@);
            if !answer {
                assert(!pairwise(views(items@), related@));
                return false;
            }
            second = second + 1;
        }
        first = first + 1;
    }
    true
}

/// Whether every item is selected.
pub(crate) fn all_items<T: View, F: Fn(&T) -> bool>(
    items: &Vec<T>,
    test: F,
    selected: Ghost<spec_fn(T::V) -> bool>,
) -> (res: bool)
    requires
        forall|item: &T| call_requires(test, (item,)),
        forall|item: &T, answer: bool|
            call_ensures(test, (item,), answer) ==> answer == selected@(item@),
    ensures
        res == forall|i: int|
            0 <= i < views(items@).len() ==> selected@(#[trigger] views(items@)[i]),
{
    let mut index: usize = 0;
    while index < items.len()
        invariant
            index <= items.len(),
            forall|item: &T| call_requires(test, (item,)),
            forall|item: &T, answer: bool|
                call_ensures(test, (item,), answer) ==> answer == selected@(item@),
            forall|i: int| 0 <= i < index ==> selected@(#[trigger] views(items@)[i]),
        decreases items.len() - index,
    {
        let answer = test(&items[index]);
        assert(views(items@)[index as int] == items@[index as int]@);
        if !answer {
            return false;
        }
        index = index + 1;
    }
    true
}

/// At most the first `limit` items.
pub open spec fn first_items<T>(items: Seq<T>, limit: nat) -> Seq<T> {
    if items.len() <= limit {
        items
    } else {
        items.take(limit as int)
    }
}

/// What a prefix selects is a prefix of what everything selects.
pub proof fn lemma_filter_prefix<T>(items: Seq<T>, index: int, selected: spec_fn(T) -> bool)
    requires
        0 <= index <= items.len(),
    ensures
        items.take(index).filter(selected).is_prefix_of(items.filter(selected)),
    decreases items.len() - index,
{
    if index < items.len() {
        lemma_filter_prefix(items, index + 1, selected);
        lemma_filter_step(items, index, selected);
    } else {
        assert(items.take(index) =~= items);
    }
}

/// What a filter keeps stands in the order in which it stood.
pub proof fn lemma_filter_in_order<T>(
    items: Seq<T>,
    selected: spec_fn(T) -> bool,
    i: int,
    j: int,
)
    requires
        0 <= i < j < items.filter(selected).len(),
    ensures
        exists|a: int, b: int|
            0 <= a < b < items.len() && #[trigger] items[a] == items.filter(selected)[i]
                && #[trigger] items[b] == items.filter(selected)[j],
    decreases items.len(),
{
    reveal(Seq::filter);
    if items.len() > 0 {
        let front = items.drop_last();
        let kept = front.filter(selected);
        if j < kept.len() {
            lemma_filter_in_order(front, selected, i, j);
            let (a, b) = choose|a: int, b: int|
                0 <= a < b < front.len() && #[trigger] front[a] == kept[i] && #[trigger] front[b]
                    == kept[j];
            assert(items[a] == items.filter(selected)[i] && items[b] == items.filter(selected)[j]);
        } else {
            assert(kept.contains(kept[i]));
            lemma_filter_contains(front, selected, kept[i]);
            let a = choose|a: int| 0 <= a < front.len() && front[a] == kept[i];
            let b = items.len() - 1;
            assert(items[a] == items.filter(selected)[i] && items[b] == items.filter(selected)[j]);
        }
    }
}

/// What is listed of a table up to a limit: rows that are there and selected, and
/// every such row where the limit was not reached.
pub proof fn lemma_listed<T>(items: Seq<T>, selected: spec_fn(T) -> bool, limit: nat)
    ensures
        ({
            let rows = first_items(items.filter(selected), limit);
            &&& rows.len() <= limit
            &&& forall|k: int|
                0 <= k < rows.len() ==> selected(#[trigger] rows[k]) && items.contains(rows[k])
            &&& forall|item: T| #[trigger]
                items.contains(item) && selected(item) && rows.len() < limit ==> rows.contains(item)
        }),
{
    let kept = items.filter(selected);
    let rows = first_items(kept, limit);
    assert forall|k: int| 0 <= k < rows.len() implies selected(#[trigger] rows[k])
        && items.contains(rows[k]) by {
        assert(rows[k] == kept[k]);
        assert(kept.contains(kept[k]));
        lemma_filter_contains(items, selected, kept[k]);
    }
    assert forall|item: T| #[trigger]
        items.contains(item) && selected(item) && rows.len() < limit implies rows.contains(
        item,
    ) by {
        lemma_filter_contains(items, selected, item);
    }
}

/// What is listed of a table keeps its order, and comes before what is left out.
pub proof fn lemma_listed_in_order<T>(
    items: Seq<T>,
    selected: spec_fn(T) -> bool,
    limit: nat,
    related: spec_fn(T, T) -> bool,
)
    requires
        pairwise(items, related),
    ensures
        ({
            let rows = first_items(items.filter(selected), limit);
            &&& forall|i: int, j: int|
                0 <= i < j < rows.len() ==> related(#[trigger] rows[i], #[trigger] rows[j])
            &&& forall|item: T, k: int|
                #![trigger items.contains(item), rows[k]]
                items.contains(item) && selected(item) && !rows.contains(item) && 0 <= k
                    < rows.len() ==> related(rows[k], item)
        }),
{
    let kept = items.filter(selected);
    let rows = first_items(kept, limit);
    lemma_filter_pairwise(items, selected, related);
    assert forall|i: int, j: int| 0 <= i < j < rows.len() implies related(
        #[trigger] rows[i],
        #[trigger] rows[j],
    ) by {
        assert(rows[i] == kept[i] && rows[j] == kept[j]);
    }
    assert forall|item: T, k: int|
        #![trigger items.contains(item), rows[k]]
        items.contains(item) && selected(item) && !rows.contains(item) && 0 <= k
            < rows.len() implies related(rows[k], item) by {
        lemma_filter_contains(items, selected, item);
        let at = choose|at: int| 0 <= at < kept.len() && kept[at] == item;
        if at < rows.len() {
            assert(rows[at] == item);
        }
        assert(related(kept[k], kept[at]));
    }
}

/// A type whose values are listed by a time and then by an identity.
pub trait Ranked: View {
    /// Where a value stands.
    spec fn rank(value: Self::V) -> (Timestamp, u128);

    /// Where this value stands.
    fn rank_of(&self) -> (res: (Timestamp, u128))
        ensures
            res == Self::rank(self@),
    ;
}

/// Whether one rank may stand before another: the earlier time first, and the
/// smaller identity where the times are equal.
pub open spec fn rank_le(left: (Timestamp, u128), right: (Timestamp, u128)) -> bool {
    left.0.earlier_than(right.0) || left.0 == right.0 && left.1 <= right.1
}

/// The same values as in `source`, listed by rank.
pub open spec fn arranged<T: Ranked>(items: Seq<T::V>, source: Seq<T::V>) -> bool {
    &&& items.to_multiset() == source.to_multiset()
    &&& forall|i: int, j: int|
        0 <= i < j < items.len() ==> rank_le(
            T::rank(#[trigger] items[i]),
            T::rank(#[trigger] items[j]),
        )
}

/// Whether one rank stands strictly before another.
fn rank_below(left: (Timestamp, u128), right: (Timestamp, u128)) -> (res: bool)
    ensures
        res == !rank_le(right, left),
{
    left.0.before(&right.0) || left.0 == right.0 && left.1 < right.1
}

/// Lists values by rank.
pub(crate) fn arrange<T: Row + Ranked>(items: &Vec<T>) -> (res: Vec<T>)
    ensures
        arranged::<T>(views(res@), views(items@)),
{
    let mut res: Vec<T> = Vec::new();
    let mut index: usize = 0;
    let ghost source = views(items@);
    proof {
        assert(views(res@) =~= source.take(0));
    }
    while index < items.len()
        invariant
            index <= items.len(),
            source == views(items@),
            arranged::<T>(views(res@), source.take(index as int)),
        decreases items.len() - index,
    {
        let item = items[index].duplicate();
        let rank = item.rank_of();
        let mut at: usize = res.len();
        while at > 0 && rank_below(rank, res[at - 1].rank_of())
            invariant
                at <= res.len(),
                rank == T::rank(item@),
                forall|i: int|
                    at <= i < res.len() ==> rank_le(rank, T::rank((#[trigger] res@[i])@)),
            decreases at,
        {
            at = at - 1;
        }
        let ghost before = res@;
        res.insert(at, item);
        proof {
            let old_views = views(before);
            let new_views = views(res@);
            assert(new_views =~= old_views.insert(at as int, item@));
            to_multiset_insert(old_views, at as int, item@);
            assert(source.take(index + 1) =~= source.take(index as int).push(item@));
            to_multiset_build(source.take(index as int), item@);
            assert forall|i: int, j: int| 0 <= i < j < new_views.len() implies rank_le(
                T::rank(#[trigger] new_views[i]),
                T::rank(#[trigger] new_views[j]),
            ) by {
                if j < at {
                    assert(new_views[i] == old_views[i] && new_views[j] == old_views[j]);
                } else if j == at {
                    assert(new_views[i] == old_views[i]);
                    assert(rank_le(T::rank(old_views[at - 1]), rank));
                    if i < at - 1 {
                        assert(rank_le(T::rank(old_views[i]), T::rank(old_views[at - 1])));
                    }
                } else if i < at {
                    assert(new_views[i] == old_views[i] && new_views[j] == old_views[j - 1]);
                } else if i == at {
                    assert(new_views[j] == before[j - 1]@);
                } else {
                    assert(new_views[i] == old_views[i - 1] && new_views[j] == old_views[j - 1]);
                }
            }
        }
        index = index + 1;
    }
    assert(source.take(index as int) =~= source);
    res
}

/// Whether two optional texts hold the same characters.
pub fn same_text(left: &Option<String>, right: &Option<String>) -> (res: bool)
    ensures
        res == (option_view(*left) == option_view(*right)),
{
    match (left, right) {
        (Some(a), Some(b)) => *a == *b,
        (None, None) => true,
        _ => false,
    }
}

} // verus!
