//! A singly linked list: each node owns the node after it.
//!
//! The view of a list is the sequence of its elements from the head on.

use crate::sequence::{first, without_first};
use vstd::prelude::*;

verus! {

#[derive(Debug, PartialEq)]
struct Node<T> {
    data: T,
    next: Option<Box<Node<T>>>,
}

/// The elements from `link` on.
spec fn elements<T>(link: Option<Box<Node<T>>>) -> Seq<T>
    decreases link,
{
    match link {
        None => Seq::empty(),
        Some(node) => seq![node.data] + elements(node.next),
    }
}

/// The chain of nodes that holds `items` in order.
spec fn link_of<T>(items: Seq<T>) -> Option<Box<Node<T>>>
    decreases items.len(),
{
    if items.len() == 0 {
        None
    } else {
        Some(Box::new(Node { data: items[0], next: link_of(items.skip(1)) }))
    }
}

proof fn lemma_link_of<T>(items: Seq<T>)
    ensures
        elements(link_of(items)) == items,
    decreases items.len(),
{
    if items.len() > 0 {
        lemma_link_of(items.skip(1));
    }
}

proof fn lemma_elements_determine_link<T>(a: Option<Box<Node<T>>>, b: Option<Box<Node<T>>>)
    requires
        elements(a) == elements(b),
    ensures
        a == b,
    decreases a,
{
    match a {
        None => {},
        Some(node) => {
            assert(elements(a).skip(1) =~= elements(node.next));
            match b {
                None => {},
                Some(other) => {
                    assert(elements(b)[0] == other.data);
                    assert(elements(b).skip(1) =~= elements(other.next));
                    lemma_elements_determine_link(node.next, other.next);
                },
            }
        },
    }
}

impl<T> Node<T> {
    fn boxed(data: T, next: Option<Box<Node<T>>>) -> (node: Box<Self>)
        ensures
            node.data == data,
            node.next == next,
            elements(Some(node)) == seq![data] + elements(next),
    {
        Box::new(Node { data, next })
    }
}

/// A list of values of type `T`.
#[derive(Debug, PartialEq)]
pub struct LinkedList<T> {
    head: Option<Box<Node<T>>>,
}

impl<T> View for LinkedList<T> {
    type V = Seq<T>;

    closed spec fn view(&self) -> Seq<T> {
        elements(self.head)
    }
}

impl<T> LinkedList<T> {
    /// The list whose elements are `items`.
    pub closed spec fn of_seq(items: Seq<T>) -> Self {
        LinkedList { head: link_of(items) }
    }

    /// The elements of the list made of `items` are `items`.
    pub proof fn lemma_of_seq(items: Seq<T>)
        ensures
            Self::of_seq(items)@ == items,
    {
        lemma_link_of(items);
    }

    /// A list is no more than its elements: two lists with the same
    /// elements in the same order are equal.
    pub proof fn lemma_same_elements(self, other: Self)
        requires
            self@ == other@,
        ensures
            self == other,
    {
        lemma_elements_determine_link(self.head, other.head);
    }

    /// The list of the one element `head`, or the empty list.
    pub fn new(head: Option<T>) -> (list: Self)
        ensures
            list@ == match head {
                Some(data) => seq![data],
                None => Seq::empty(),
            },
    {
        LinkedList {
            head: match head {
                Some(data) => Some(Node::boxed(data, None)),
                None => None,
            },
        }
    }

    /// Puts `data` in front of all the elements.
    pub fn prepend(&mut self, data: T)
        ensures
            final(self)@ == seq![data] + old(self)@,
    {
        self.head = Some(Node::boxed(data, self.head.take()));
    }

    /// Puts `data` behind all the elements.
    pub fn append(&mut self, data: T)
        ensures
            final(self)@ == old(self)@.push(data),
    {
        let ghost mut passed: Seq<T> = Seq::empty();
        let mut head = self.head.take();
        let mut next = &mut head;
        loop
            invariant
                old(self)@ == passed + elements(*next),
                elements(after_borrow(head)) == passed + elements(*final(next)),
            ensures
                *next is None,
            decreases elements(*next).len(),
        {
            match next {
                Some(node) => {
                    proof {
                        passed = passed.push(node.data);
                    }
                    next = &mut node.next;
                },
                None => {
                    break ;
                },
            }
        }
        *next = Some(Node::boxed(data, None));
        self.head = head;
    }

    /// Removes all the elements.
    pub fn clear(&mut self)
        ensures
            final(self)@ == Seq::<T>::empty(),
    {
        self.head.take();
    }

    /// Turns the list round: the last element becomes the first.
    pub fn reverse(&mut self)
        ensures
            final(self)@ == old(self)@.reverse(),
    {
        let mut prev: Option<Box<Node<T>>> = None;
        let mut curr = self.head.take();
        while curr.is_some()
            invariant
                elements(curr).reverse() + elements(prev) == old(self)@.reverse(),
            decreases elements(curr).len(),
        {
            let mut node = curr.unwrap();
            curr = node.next.take();
            node.next = prev;
            prev = Some(node);
        }
        self.head = prev;
    }

    /// Goes through the elements from the first on, leaving the list as it
    /// is.
    pub fn iter(&self) -> (iter: LinkedListIter<'_, T>)
        ensures
            iter@ == self@,
    {
        LinkedListIter(&self.head)
    }

    /// Goes through the elements from the first on, handing each one out.
    pub fn into_iter(self) -> (iter: LinkedListIterator<T>)
        ensures
            iter@ == self@,
    {
        LinkedListIterator(self.head)
    }

    /// The elements in a `Vec`, in the order of the list.
    pub fn into_vec(self) -> (items: Vec<T>)
        ensures
            items@ == self@,
    {
        let mut items: Vec<T> = Vec::new();
        let mut rest = self.into_iter();
        loop
            invariant
                items@ + rest@ == self@,
            ensures
                items@ == self@,
            decreases rest@.len(),
        {
            match rest.next() {
                Some(item) => {
                    items.push(item);
                },
                None => {
                    break ;
                },
            }
        }
        items
    }

    /// The list without its first element; the empty list stays empty.
    pub fn tail(self) -> (rest: Self)
        ensures
            rest@ == without_first(self@),
    {
        LinkedList {
            head: match self.head {
                None => None,
                Some(node) => node.next,
            },
        }
    }

    /// Removes the first element; the empty list stays empty.
    pub fn drop(&mut self)
        ensures
            final(self)@ == without_first(old(self)@),
    {
        self.head = match self.head.take() {
            None => None,
            Some(node) => node.next,
        };
    }
}

impl<T, const N: usize> From<[T; N]> for LinkedList<T> {
    /// The list of the elements of `array`, in the order of the array.
    fn from(array: [T; N]) -> (list: Self)
        ensures
            list@ == array@,
    {
        let boxed: Box<[T]> = Box::new(array);
        let mut rest: Vec<T> = boxed.into_vec();
        let mut head: Option<Box<Node<T>>> = None;
        while rest.len() > 0
            invariant
                rest@ + elements(head) == array@,
            decreases rest.len(),
        {
            let data = rest.pop().unwrap();
            head = Some(Node::boxed(data, head));
        }
        let list = LinkedList { head };
        proof {
            Self::lemma_of_seq(array@);
            list.lemma_same_elements(Self::of_seq(array@));
        }
        list
    }
}

impl<T, const N: usize> vstd::std_specs::convert::FromSpecImpl<[T; N]> for LinkedList<T> {
    open spec fn obeys_from_spec() -> bool {
        true
    }

    open spec fn from_spec(array: [T; N]) -> Self {
        Self::of_seq(array@)
    }
}

/// The elements of a list that have not been handed out yet; the view is
/// the sequence of those elements.
pub struct LinkedListIterator<T>(Option<Box<Node<T>>>);

impl<T> View for LinkedListIterator<T> {
    type V = Seq<T>;

    closed spec fn view(&self) -> Seq<T> {
        elements(self.0)
    }
}

impl<T> LinkedListIterator<T> {
    /// Hands out the next element; `None` once there is none left.
    pub fn next(&mut self) -> (item: Option<T>)
        ensures
            item == first(old(self)@),
            final(self)@ == without_first(old(self)@),
    {
        match self.0.take() {
            None => None,
            Some(node) => {
                let node = *node;
                self.0 = node.next;
                Some(node.data)
            },
        }
    }
}

/// The elements of a borrowed list that have not been visited yet; the view
/// is the sequence of those elements.
pub struct LinkedListIter<'a, T>(&'a Option<Box<Node<T>>>);

impl<'a, T> View for LinkedListIter<'a, T> {
    type V = Seq<T>;

    closed spec fn view(&self) -> Seq<T> {
        elements(*self.0)
    }
}

impl<'a, T> LinkedListIter<'a, T> {
    /// A reference to the next element; `None` once there is none left.
    pub fn next(&mut self) -> (item: Option<&'a T>)
        ensures
            first(old(self)@) == match item {
                Some(value) => Some(*value),
                None => None,
            },
            final(self)@ == without_first(old(self)@),
    {
        match self.0 {
            None => None,
            Some(node) => {
                self.0 = &node.next;
                Some(&node.data)
            },
        }
    }
}

} // verus!
