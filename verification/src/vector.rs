//! A growable array kept in the first slots of a buffer.
//!
//! The view of a vector is the sequence of its elements by index.

use crate::buffer::{growable, grown_capacity, Buffer};
use vstd::prelude::*;

verus! {

/// A growable array of values of type `T`.
#[derive(Debug, PartialEq)]
pub struct Vector<T> {
    len: usize,
    data: Buffer<T>,
}

impl<T> View for Vector<T> {
    type V = Seq<T>;

    closed spec fn view(&self) -> Seq<T> {
        Seq::new(self.len as nat, |i: int| self.data@[i].unwrap())
    }
}

impl<T> Vector<T> {
    /// The number of slots of the underlying buffer.
    pub closed spec fn spec_capacity(&self) -> nat {
        self.data@.len()
    }

    /// The vector is well formed: the length is within the capacity, the
    /// first `len` slots are occupied and all the others are vacant.
    pub closed spec fn wf(&self) -> bool {
        &&& self.len <= self.data@.len()
        &&& forall|i: int|
            0 <= i < self.data@.len() ==> (#[trigger] self.data@[i] is Some <==> i < self.len)
    }

    /// An empty vector without any slot.
    pub fn new() -> (vector: Self)
        ensures
            vector.wf(),
            vector@ == Seq::<T>::empty(),
            vector.spec_capacity() == 0,
    {
        Vector { len: 0, data: Buffer::new() }
    }

    /// The number of slots; the vector grows when an element is pushed onto
    /// a vector that fills them all.
    pub fn capacity(&self) -> (capacity: usize)
        ensures
            capacity == self.spec_capacity(),
    {
        self.data.capacity()
    }

    /// The number of elements.
    pub fn len(&self) -> (len: usize)
        requires
            self.wf(),
        ensures
            len == self@.len(),
            len <= self.spec_capacity(),
    {
        self.len
    }

    /// Adds `element` at the end. A vector that fills all its slots grows
    /// first: to 4 slots from none, else to twice as many.
    pub fn push(&mut self, element: T)
        requires
            old(self).wf(),
            old(self)@.len() == old(self).spec_capacity() ==> growable::<T>(
                old(self).spec_capacity(),
            ),
        ensures
            final(self).wf(),
            final(self)@ == old(self)@.push(element),
            final(self).spec_capacity() == if old(self)@.len() == old(self).spec_capacity() {
                grown_capacity(old(self).spec_capacity())
            } else {
                old(self).spec_capacity()
            },
    {
        if self.len == self.data.capacity() {
            self.data.grow();
        }
        self.data.write(self.len, element);
        self.len = self.len + 1;
    }

    /// Adds `element` at the end as `push` does, or hands it back and leaves
    /// the vector as it is where the vector is full and its buffer cannot
    /// grow.
    pub fn try_push(&mut self, element: T) -> (outcome: Result<(), T>)
        requires
            old(self).wf(),
        ensures
            final(self).wf(),
            match outcome {
                Ok(_) => {
                    &&& old(self)@.len() == old(self).spec_capacity() ==> growable::<T>(
                        old(self).spec_capacity(),
                    )
                    &&& final(self)@ == old(self)@.push(element)
                    &&& final(self).spec_capacity() == if old(self)@.len() == old(
                        self,
                    ).spec_capacity() {
                        grown_capacity(old(self).spec_capacity())
                    } else {
                        old(self).spec_capacity()
                    }
                },
                Err(back) => {
                    &&& old(self)@.len() == old(self).spec_capacity()
                    &&& !growable::<T>(old(self).spec_capacity())
                    &&& back == element
                    &&& *final(self) == *old(self)
                },
            },
    {
        if self.len < self.data.capacity() || self.data.can_grow() {
            self.push(element);
            Ok(())
        } else {
            Err(element)
        }
    }

    /// The element at `index`; `None` where `index` is not below the length.
    pub fn at(&self, index: usize) -> (element: Option<&T>)
        requires
            self.wf(),
        ensures
            match element {
                Some(value) => index < self@.len() && *value == self@[index as int],
                None => index >= self@.len(),
            },
    {
        if index >= self.len {
            return None;
        }
        Some(self.data.get(index))
    }
}

} // verus!
