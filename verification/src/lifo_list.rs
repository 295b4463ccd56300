//! A generic singly linked LIFO list.
//!
//! The list is modelled as a `Seq<T>` whose first entry is the top: the item
//! pushed last and popped next.

use std::fmt::Display;
use vstd::prelude::*;
use vstd::string::to_string_from_display_ensures;

verus! {

/// The model of a list after `item` has been pushed onto `items`.
pub open spec fn pushed<T>(items: Seq<T>, item: T) -> Seq<T> {
    seq![item] + items
}

/// The top of `items`: what the next pop hands out.
pub open spec fn top<T>(items: Seq<T>) -> Option<T> {
    if items.len() == 0 {
        None
    } else {
        Some(items[0])
    }
}

/// The model of a list after one pop: `items` without its top, or `items`
/// itself where there is nothing to take.
pub open spec fn popped<T>(items: Seq<T>) -> Seq<T> {
    if items.len() == 0 {
        items
    } else {
        items.subrange(1, items.len() as int)
    }
}

/// The model of a list after the entries of `items` have been pushed onto
/// `start` one by one, first to last.
pub open spec fn pushed_all<T>(start: Seq<T>, items: Seq<T>) -> Seq<T>
    decreases items.len(),
{
    if items.len() == 0 {
        start
    } else {
        pushed(pushed_all(start, items.drop_last()), items.last())
    }
}

/// The entries of `texts` in order, with `", "` between neighbours.
pub open spec fn joined(texts: Seq<Seq<char>>) -> Seq<char>
    decreases texts.len(),
{
    if texts.len() == 0 {
        Seq::empty()
    } else if texts.len() == 1 {
        texts[0]
    } else {
        joined(texts.drop_last()) + ", "@ + texts.last()
    }
}

/// How a list reads whose items, from the top down, read `texts`:
/// `Stack: [` and `]` around the joined texts.
pub open spec fn framed(texts: Seq<Seq<char>>) -> Seq<char> {
    "Stack: ["@ + joined(texts) + "]"@
}

/// Whether `texts` holds, entry by entry, what the `Display` impl of `T`
/// writes for `items`.
pub open spec fn shown_as<T: Display>(items: Seq<T>, texts: Seq<String>) -> bool {
    &&& texts.len() == items.len()
    &&& forall|i: int|
        0 <= i < items.len() ==> #[trigger] to_string_from_display_ensures::<T>(
            &items[i],
            texts[i],
        )
}

/// Puts the texts of a list's items, top first, into the list's own text.
pub fn frame(texts: &Vec<String>) -> (text: String)
    ensures
        text@ == framed(texts.deep_view()),
{
    let mut text = String::from_str("Stack: [");
    let mut i: usize = 0;
    while i < texts.len()
        invariant
            i <= texts.len(),
            text@ == "Stack: ["@ + joined(texts.deep_view().take(i as int)),
        decreases texts.len() - i,
    {
        proof {
            let before = texts.deep_view().take(i as int);
            let after = texts.deep_view().take(i + 1);
            assert(after.drop_last() == before);
            assert(after.last() == texts[i as int]@);
        }
        if i > 0 {
            text.append(", ");
        }
        text.append(texts[i].as_str());
        i += 1;
    }
    assert(texts.deep_view().take(i as int) == texts.deep_view());
    text.append("]");
    text
}

struct ListNode<T> {
    item: T,
    next: Option<Box<ListNode<T>>>,
}

/// The items reachable from `link`, nearest first.
spec fn items_from<T>(link: Option<Box<ListNode<T>>>) -> Seq<T>
    decreases link,
{
    match link {
        None => Seq::empty(),
        Some(node) => pushed(items_from(node.next), node.item),
    }
}

/// The items from `node` on, nearest first.
spec fn items_behind<T>(node: Option<&ListNode<T>>) -> Seq<T> {
    match node {
        None => Seq::empty(),
        Some(node) => pushed(items_from(node.next), node.item),
    }
}

/// A chain of nodes together with the number of its nodes. Both live in one
/// value so that a list can exchange them in a single step.
struct Chain<T> {
    head: Option<Box<ListNode<T>>>,
    size: usize,
}

impl<T> Chain<T> {
    spec fn items(self) -> Seq<T> {
        items_from(self.head)
    }

    spec fn counted(self) -> bool {
        self.size == self.items().len()
    }

    /// Puts `node` in front and counts it.
    fn attach(&mut self, node: Box<ListNode<T>>)
        requires
            node.next is None,
            old(self).counted(),
            old(self).size < usize::MAX,
        ensures
            final(self).counted(),
            final(self).items() == pushed(old(self).items(), node.item),
        no_unwind
    {
        let mut node = node;
        core::mem::swap(&mut node.next, &mut self.head);
        self.head = Some(node);
        self.size = self.size + 1;
    }

    /// Takes the first node off, if there is one, and hands out its item.
    fn detach(&mut self) -> (item: Option<T>)
        requires
            old(self).counted(),
        ensures
            final(self).counted(),
            item == top(old(self).items()),
            final(self).items() == popped(old(self).items()),
        no_unwind
    {
        let mut first = None;
        core::mem::swap(&mut first, &mut self.head);
        match first {
            None => None,
            Some(node) => {
                let node = *node;
                self.head = node.next;
                self.size = self.size - 1;
                assert(popped(pushed(items_from(node.next), node.item)) == items_from(node.next));
                Some(node.item)
            },
        }
    }
}

/// A last-in-first-out list: items leave in the reverse of the order in which
/// they came.
pub struct LifoList<T> {
    chain: Chain<T>,
}

impl<T> View for LifoList<T> {
    type V = Seq<T>;

    /// The items from the top down.
    closed spec fn view(&self) -> Seq<T> {
        self.chain.items()
    }
}

impl<T> LifoList<T> {
    #[verifier::type_invariant]
    spec fn counted(self) -> bool {
        self.chain.counted()
    }

    /// The number of items, as `size` reports it.
    pub open spec fn spec_size(&self) -> usize {
        self@.len() as usize
    }

    /// An empty list.
    pub fn new() -> (list: Self)
        ensures
            list@ == Seq::<T>::empty(),
    {
        LifoList { chain: Chain { head: None, size: 0 } }
    }

    /// Whether the list holds no item: true exactly when `size()` is 0.
    pub fn empty(&self) -> (none: bool)
        ensures
            none == (self@.len() == 0),
            none == (self.size() == 0),
    {
        proof {
            use_type_invariant(self);
        }
        self.chain.size == 0
    }

    /// The number of items in the list.
    #[verifier::when_used_as_spec(spec_size)]
    pub fn size(&self) -> (n: usize)
        ensures
            n == self@.len(),
            n == self.spec_size(),
    {
        proof {
            use_type_invariant(self);
        }
        self.chain.size
    }

    /// Puts `item` on top. The count of the items is a `usize`, so the list
    /// must hold fewer than `usize::MAX` of them.
    pub fn push(&mut self, item: T)
        requires
            old(self)@.len() < usize::MAX,
        ensures
            final(self)@ == pushed(old(self)@, item),
    {
        proof {
            use_type_invariant(&*self);
        }
        let node = Box::new(ListNode { item, next: None });
        self.chain.attach(node);
    }

    /// Takes the top item off and hands it out; `None`, and no change, where
    /// the list is empty.
    pub fn pop(&mut self) -> (item: Option<T>)
        ensures
            item == top(old(self)@),
            final(self)@ == popped(old(self)@),
        no_unwind
    {
        proof {
            use_type_invariant(&*self);
        }
        self.chain.detach()
    }
}

impl<T> LifoList<T> {
    /// A list filled by pushing the entries of `items` first to last, so that
    /// the last entry ends on top and pops hand the entries out in reverse.
    pub fn from_sequence(items: Vec<T>) -> (list: Self)
        ensures
            list@ == pushed_all(Seq::empty(), items@),
            list@ == items@.reverse(),
    {
        let ghost all = items@;
        assert(all.len() == items.len());
        let mut list = LifoList::new();
        for item in it: items
            invariant
                it.seq() == all,
                all.len() <= usize::MAX,
                list@ == pushed_all(Seq::empty(), all.take(it.index())),
                list@ == all.take(it.index()).reverse(),
        {
            proof {
                let before = all.take(it.index());
                let after = all.take(it.index() + 1);
                assert(after.drop_last() == before);
                assert(after.last() == item);
                assert(after.reverse() == pushed(before.reverse(), item));
            }
            list.push(item);
        }
        assert(all.take(all.len() as int) == all);
        list
    }

    /// Gives the list up for an iterator that hands its items out from the
    /// top down.
    pub fn into_iter(self) -> (it: LifoListIterator<T>)
        ensures
            it@ == self@,
    {
        LifoListIterator { rest: self }
    }

    /// An iterator over references to the items from the top down. The list
    /// is left as it is, and each call starts again at the top.
    pub fn iter(&self) -> (it: LifoListIter<'_, T>)
        ensures
            it@ == self@,
    {
        LifoListIter {
            next: match &self.chain.head {
                None => None,
                Some(node) => Some(&**node),
            },
        }
    }
}

impl<T: Display> LifoList<T> {
    /// The list as text: `Stack: [3, 2, 1]` for a list with 3 on top,
    /// `Stack: []` for an empty one. Each item reads as its `Display` impl
    /// writes it.
    pub fn to_text(&self) -> (text: String)
        ensures
            exists|texts: Seq<String>|
                #[trigger] shown_as(self@, texts) && text@ == framed(
                    texts.map_values(|t: String| t@),
                ),
    {
        let mut texts: Vec<String> = Vec::new();
        let mut it = self.iter();
        loop
            invariant
                texts.len() + it@.len() == self@.len(),
                it@ == self@.skip(texts.len() as int),
                forall|i: int|
                    0 <= i < texts.len() ==> #[trigger] to_string_from_display_ensures::<T>(
                        &self@[i],
                        texts[i],
                    ),
            ensures
                it@.len() == 0,
            decreases it@.len(),
        {
            match it.next() {
                None => break,
                Some(item) => {
                    texts.push(item.to_string());
                },
            }
        }
        let text = frame(&texts);
        assert(texts.deep_view() == texts@.map_values(|t: String| t@));
        assert(shown_as(self@, texts@));
        text
    }
}

/// The consuming iterator of a `LifoList`: it owns the items not yet handed
/// out.
pub struct LifoListIterator<T> {
    rest: LifoList<T>,
}

impl<T> View for LifoListIterator<T> {
    type V = Seq<T>;

    /// The items still to come, next first.
    closed spec fn view(&self) -> Seq<T> {
        self.rest@
    }
}

impl<T> LifoListIterator<T> {
    /// Hands out the next item; `None` once all are gone, and from then on.
    pub fn next(&mut self) -> (item: Option<T>)
        ensures
            item == top(old(self)@),
            final(self)@ == popped(old(self)@),
    {
        self.rest.pop()
    }
}

/// The borrowing iterator of a `LifoList`: it points at the node whose item
/// comes next.
pub struct LifoListIter<'a, T> {
    next: Option<&'a ListNode<T>>,
}

impl<'a, T> View for LifoListIter<'a, T> {
    type V = Seq<T>;

    /// The items still to come, next first.
    closed spec fn view(&self) -> Seq<T> {
        items_behind(self.next)
    }
}

impl<'a, T> LifoListIter<'a, T> {
    /// Hands out a reference to the next item; `None` once the bottom has
    /// been passed, and from then on.
    pub fn next(&mut self) -> (item: Option<&'a T>)
        ensures
            match item {
                None => old(self)@.len() == 0,
                Some(r) => old(self)@.len() > 0 && *r == old(self)@[0],
            },
            final(self)@ == popped(old(self)@),
    {
        match self.next {
            None => None,
            Some(node) => {
                self.next = match &node.next {
                    None => None,
                    Some(after) => Some(&**after),
                };
                assert(popped(pushed(items_from(node.next), node.item)) == items_from(node.next));
                Some(&node.item)
            },
        }
    }
}

impl<T> Drop for LifoList<T> {
    /// Unlinks the nodes one by one, as popping until the list is empty would,
    /// so that the depth of the call stack does not grow with the length of
    /// the list. Nothing is left linked for the fields' own release.
    fn drop(&mut self)
        ensures
            final(self)@ == Seq::<T>::empty(),
        opens_invariants none
        no_unwind
    {
        let mut chain = Chain { head: None, size: 0 };
        core::mem::swap(&mut chain, &mut self.chain);
        let mut rest = chain.head;
        loop
            decreases items_from(rest).len(),
        {
            match rest {
                None => break,
                Some(node) => {
                    let node = *node;
                    rest = node.next;
                },
            }
        }
    }
}

} // verus!
