//! A last-in, first-out stack kept in the first slots of a buffer.
//!
//! The view of a stack is the sequence of its elements, the newest last.

use crate::buffer::{growable, grown_capacity, Buffer};
use crate::sequence::{last, without_last};
use vstd::prelude::*;

verus! {

/// A stack of values of type `T`.
#[derive(Debug, PartialEq)]
pub struct Stack<T> {
    size: usize,
    data: Buffer<T>,
}

impl<T> View for Stack<T> {
    type V = Seq<T>;

    closed spec fn view(&self) -> Seq<T> {
        Seq::new(self.size as nat, |i: int| self.data@[i].unwrap())
    }
}

impl<T> Stack<T> {
    /// The number of slots of the underlying buffer.
    pub closed spec fn spec_capacity(&self) -> nat {
        self.data@.len()
    }

    /// The stack is well formed: the size is within the capacity, the first
    /// `size` slots are occupied and all the others are vacant.
    pub closed spec fn wf(&self) -> bool {
        &&& self.size <= self.data@.len()
        &&& forall|i: int|
            0 <= i < self.data@.len() ==> (#[trigger] self.data@[i] is Some <==> i < self.size)
    }

    /// An empty stack without any slot.
    pub fn new() -> (stack: Self)
        ensures
            stack.wf(),
            stack@ == Seq::<T>::empty(),
            stack.spec_capacity() == 0,
    {
        Stack { size: 0, data: Buffer::new() }
    }

    /// The number of elements.
    pub fn size(&self) -> (size: usize)
        requires
            self.wf(),
        ensures
            size == self@.len(),
            size <= self.spec_capacity(),
    {
        self.size
    }

    /// The number of slots; the stack grows when an element is pushed onto
    /// a stack that fills them all.
    pub fn capacity(&self) -> (capacity: usize)
        ensures
            capacity == self.spec_capacity(),
    {
        self.data.capacity()
    }

    /// Puts `elem` on top. A stack that fills all its slots grows first.
    pub fn push(&mut self, elem: T)
        requires
            old(self).wf(),
            old(self)@.len() == old(self).spec_capacity() ==> growable::<T>(
                old(self).spec_capacity(),
            ),
        ensures
            final(self).wf(),
            final(self)@ == old(self)@.push(elem),
            final(self).spec_capacity() == if old(self)@.len() == old(self).spec_capacity() {
                grown_capacity(old(self).spec_capacity())
            } else {
                old(self).spec_capacity()
            },
    {
        if self.size == self.data.capacity() {
            self.data.grow();
        }
        self.data.write(self.size, elem);
        self.size = self.size + 1;
    }

    /// Puts `elem` on top as `push` does, or hands it back and leaves the
    /// stack as it is where the stack is full and its buffer cannot grow.
    pub fn try_push(&mut self, elem: T) -> (outcome: Result<(), T>)
        requires
            old(self).wf(),
        ensures
            final(self).wf(),
            match outcome {
                Ok(_) => {
                    &&& old(self)@.len() == old(self).spec_capacity() ==> growable::<T>(
                        old(self).spec_capacity(),
                    )
                    &&& final(self)@ == old(self)@.push(elem)
                    &&& final(self).spec_capacity() == if old(self)@.len() == old(
                        self,
                    ).spec_capacity() {
                        grown_capacity(old(self).spec_capacity())
                    } else {
                        old(self).spec_capacity()
                    }
                },
                Err(back) => {
                    &&& old(self)@.len() == old(self).spec_capacity()
                    &&& !growable::<T>(old(self).spec_capacity())
                    &&& back == elem
                    &&& *final(self) == *old(self)
                },
            },
    {
        if self.size < self.data.capacity() || self.data.can_grow() {
            self.push(elem);
            Ok(())
        } else {
            Err(elem)
        }
    }

    /// Takes the top element off; `None`, and no change, where the stack is
    /// empty.
    pub fn pop(&mut self) -> (newest: Option<T>)
        requires
            old(self).wf(),
        ensures
            final(self).wf(),
            newest == last(old(self)@),
            final(self)@ == without_last(old(self)@),
            final(self).spec_capacity() == old(self).spec_capacity(),
    {
        if self.size == 0 {
            return None;
        }
        self.size = self.size - 1;
        let value = self.data.read(self.size);
        Some(value)
    }
}

} // verus!
