//! What holds of every `LifoList`, stated over its model and proved.
//!
//! The operations of the list are specified by `pushed`, `top` and `popped`;
//! the statements here follow those three through whole runs of pushes and
//! pops.

use crate::lifo_list::{popped, pushed, pushed_all, top};
use vstd::prelude::*;

verus! {

/// What `count` pops in a row hand out, first pop first, starting from a list
/// that holds `items`.
pub open spec fn pops<T>(items: Seq<T>, count: nat) -> Seq<Option<T>>
    decreases count,
{
    if count == 0 {
        Seq::empty()
    } else {
        seq![top(items)] + pops(popped(items), (count - 1) as nat)
    }
}

/// One operation on a list.
pub enum Step<T> {
    /// A push of the item.
    Push(T),
    /// A pop, whether or not it finds an item.
    Pop,
}

/// The model of a list after `step`.
pub open spec fn stepped<T>(items: Seq<T>, step: Step<T>) -> Seq<T> {
    match step {
        Step::Push(item) => pushed(items, item),
        Step::Pop => popped(items),
    }
}

/// The model of a list that started empty and went through `history`.
pub open spec fn replayed<T>(history: Seq<Step<T>>) -> Seq<T>
    decreases history.len(),
{
    if history.len() == 0 {
        Seq::empty()
    } else {
        stepped(replayed(history.drop_last()), history.last())
    }
}

/// The number of pushes in `history`.
pub open spec fn pushes<T>(history: Seq<Step<T>>) -> nat
    decreases history.len(),
{
    if history.len() == 0 {
        0
    } else if history.last() is Push {
        pushes(history.drop_last()) + 1
    } else {
        pushes(history.drop_last())
    }
}

/// The number of pops in `history` that found an item to hand out.
pub open spec fn served_pops<T>(history: Seq<Step<T>>) -> nat
    decreases history.len(),
{
    if history.len() == 0 {
        0
    } else if history.last() is Pop && replayed(history.drop_last()).len() > 0 {
        served_pops(history.drop_last()) + 1
    } else {
        served_pops(history.drop_last())
    }
}

/// Pushing `items` one by one puts them on top of `start` in reverse.
pub proof fn lemma_pushed_all_reverses<T>(start: Seq<T>, items: Seq<T>)
    ensures
        pushed_all(start, items) == items.reverse() + start,
    decreases items.len(),
{
    if items.len() > 0 {
        lemma_pushed_all_reverses(start, items.drop_last());
        assert(items.reverse() + start == pushed(
            items.drop_last().reverse() + start,
            items.last(),
        ));
    }
}

/// Popping a list once more than it has items hands out every item from the
/// top down and then `None`.
pub proof fn lemma_pops_drain<T>(items: Seq<T>)
    ensures
        pops(items, items.len() + 1) == items.map_values(|item: T| Some(item)).push(None),
    decreases items.len(),
{
    let all = items.map_values(|item: T| Some(item)).push(None);
    if items.len() == 0 {
        reveal_with_fuel(pops, 2);
        assert(pops(items, 1) == all);
    } else {
        let rest = popped(items);
        lemma_pops_drain(rest);
        assert(all == seq![top(items)] + rest.map_values(|item: T| Some(item)).push(None));
    }
}

/// Last in, first out: after `items` have been pushed one by one onto an
/// empty list, as many pops hand them out in reverse, and one more pop hands
/// out `None`.
pub proof fn lemma_pops_reverse_pushes<T>(items: Seq<T>)
    ensures
        pops(pushed_all(Seq::empty(), items), items.len() + 1).len() == items.len() + 1,
        forall|i: int|
            0 <= i < items.len() ==> #[trigger] pops(
                pushed_all(Seq::empty(), items),
                items.len() + 1,
            )[i] == Some(items[items.len() - 1 - i]),
        pops(pushed_all(Seq::empty(), items), items.len() + 1)[items.len() as int] == None::<T>,
{
    let filled = pushed_all(Seq::empty(), items);
    lemma_pushed_all_reverses(Seq::empty(), items);
    assert(filled == items.reverse());
    lemma_pops_drain(filled);
}

/// At every point of a list's history, its length is the number of pushes so
/// far minus the number of pops so far that found an item.
pub proof fn lemma_length_counts_history<T>(history: Seq<Step<T>>)
    ensures
        forall|k: int|
            0 <= k <= history.len() ==> #[trigger] replayed(history.take(k)).len() == pushes(
                history.take(k),
            ) - served_pops(history.take(k)),
{
    assert forall|k: int| 0 <= k <= history.len() implies #[trigger] replayed(
        history.take(k),
    ).len() == pushes(history.take(k)) - served_pops(history.take(k)) by {
        lemma_length_counts(history.take(k));
    }
}

/// The length of a list is the number of pushes in its history minus the
/// number of pops that found an item.
pub proof fn lemma_length_counts<T>(history: Seq<Step<T>>)
    ensures
        replayed(history).len() == pushes(history) - served_pops(history),
    decreases history.len(),
{
    if history.len() > 0 {
        lemma_length_counts(history.drop_last());
    }
}

} // verus!
