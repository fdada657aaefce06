//! A first-in, first-out queue kept in a ring of slots.
//!
//! The live elements occupy `size` consecutive slots of the buffer, starting
//! at `head` and continuing at slot 0 where they run past the end. The view
//! of a queue is the sequence of its elements, oldest first.

use crate::buffer::{allocatable, growable, grown_capacity, Buffer};
use crate::ring::{lemma_ring_index, physical_index, ring_index};
use crate::sequence::{first, without_first};
use vstd::prelude::*;

verus! {

/// A queue of values of type `T`, oldest first.
#[derive(Debug, PartialEq)]
pub struct Queue<T> {
    head: usize,
    size: usize,
    data: Buffer<T>,
}

impl<T> View for Queue<T> {
    type V = Seq<T>;

    closed spec fn view(&self) -> Seq<T> {
        Seq::new(
            self.size as nat,
            |i: int| self.data@[ring_index(self.head as int, i, self.data@.len() as int)].unwrap(),
        )
    }
}

impl<T> Queue<T> {
    /// The slots of the underlying buffer.
    pub closed spec fn slots(&self) -> Seq<Option<T>> {
        self.data@
    }

    /// The slot of the oldest element.
    pub closed spec fn head_slot(&self) -> int {
        self.head as int
    }

    /// The number of slots of the underlying buffer.
    pub closed spec fn spec_capacity(&self) -> nat {
        self.data@.len()
    }

    /// The queue is well formed: the size is within the capacity, the head
    /// is a slot of the buffer, and going round from the head the first
    /// `size` slots are occupied and all the others are vacant.
    pub closed spec fn wf(&self) -> bool {
        let capacity = self.data@.len() as int;
        &&& self.size <= capacity
        &&& if capacity == 0 {
            self.head == 0
        } else {
            self.head < capacity
        }
        &&& forall|i: int|
            0 <= i < capacity ==> (self.data@[#[trigger] ring_index(self.head as int, i, capacity)]
                is Some <==> i < self.size)
    }

    /// The number of elements never exceeds the number of slots, and the
    /// buffer has exactly that number of slots.
    pub proof fn lemma_size_within_capacity(&self)
        requires
            self.wf(),
        ensures
            self@.len() <= self.spec_capacity(),
            self.slots().len() == self.spec_capacity(),
    {
    }

    /// Where the elements lie: element `i`, counted from the oldest, is in
    /// the slot `i` steps after the head, going round the ring; the slots
    /// further on, up to a full turn, are vacant.
    pub proof fn lemma_live_window(&self, i: int)
        requires
            self.wf(),
            0 <= i < self.spec_capacity(),
        ensures
            self.spec_capacity() > 0 ==> 0 <= self.head_slot() < self.spec_capacity(),
            self.slots().len() == self.spec_capacity(),
            self.slots()[ring_index(self.head_slot(), i, self.spec_capacity() as int)] == if i
                < self@.len() {
                Some(self@[i])
            } else {
                None
            },
    {
        lemma_ring_index(self.head as int, i, self.data@.len() as int);
    }

    /// The head, the elements and the number of slots say what every slot
    /// holds: two well-formed queues that agree on these agree slot by slot.
    pub proof fn lemma_layout_determined(self, other: Self)
        requires
            self.wf(),
            other.wf(),
            self@ == other@,
            self.head_slot() == other.head_slot(),
            self.spec_capacity() == other.spec_capacity(),
        ensures
            self.slots() == other.slots(),
    {
        let capacity = self.data@.len() as int;
        let head = self.head as int;
        assert forall|p: int| 0 <= p < capacity implies self.data@[p] == other.data@[p] by {
            let i = if p < head {
                p - head + capacity
            } else {
                p - head
            };
            lemma_ring_index(head, i, capacity);
            assert(self@.len() == self.size && other@.len() == other.size);
            if i < self.size {
                assert(other@[i] == other.data@[p].unwrap());
            }
        }
    }

    /// An empty queue without any slot.
    pub fn new() -> (queue: Self)
        ensures
            queue.wf(),
            queue@ == Seq::<T>::empty(),
            queue.spec_capacity() == 0,
            queue.head_slot() == 0,
    {
        Queue { head: 0, size: 0, data: Buffer::new() }
    }

    /// An empty queue with `capacity` slots.
    pub fn with_capacity(capacity: usize) -> (queue: Self)
        requires
            allocatable::<T>(capacity as nat),
        ensures
            queue.wf(),
            queue@ == Seq::<T>::empty(),
            queue.spec_capacity() == capacity,
            queue.head_slot() == 0,
    {
        let queue = Queue { head: 0, size: 0, data: Buffer::with_capacity(capacity) };
        proof {
            assert forall|i: int| 0 <= i < capacity implies !(queue.data@[#[trigger] ring_index(
                0,
                i,
                capacity as int,
            )] is Some) by {
                lemma_ring_index(0, i, capacity as int);
            }
        }
        queue
    }

    /// An empty queue with `capacity` slots, or `None` where one allocation
    /// cannot hold that many.
    pub fn try_with_capacity(capacity: usize) -> (made: Option<Self>)
        ensures
            match made {
                Some(queue) => {
                    &&& allocatable::<T>(capacity as nat)
                    &&& queue.wf()
                    &&& queue@ == Seq::<T>::empty()
                    &&& queue.spec_capacity() == capacity
                    &&& queue.head_slot() == 0
                },
                None => !allocatable::<T>(capacity as nat),
            },
    {
        if Buffer::<T>::can_hold(capacity) {
            Some(Self::with_capacity(capacity))
        } else {
            None
        }
    }

    /// The number of elements.
    pub fn size(&self) -> (size: usize)
        requires
            self.wf(),
        ensures
            size == self@.len(),
            size <= self.spec_capacity(),
    {
        self.size
    }

    /// The number of slots; the queue grows when an element is added to a
    /// queue that fills them all.
    pub fn capacity(&self) -> (capacity: usize)
        ensures
            capacity == self.spec_capacity(),
    {
        self.data.capacity()
    }

    /// In a full queue every slot is occupied: the slots from the head on hold
    /// the oldest elements, and the slots before the head hold the newest.
    proof fn lemma_full_ring(&self)
        requires
            self.wf(),
            self.size == self.data@.len(),
        ensures
            forall|p: int|
                0 <= p < self.size ==> #[trigger] self.data@[p] == Some(
                    self@[if p < self.head {
                        p - self.head + self.size
                    } else {
                        p - self.head
                    }],
                ),
    {
        let full = self.size as int;
        let head = self.head as int;
        assert forall|p: int| 0 <= p < full implies #[trigger] self.data@[p] == Some(
            self@[if p < head {
                p - head + full
            } else {
                p - head
            }],
        ) by {
            lemma_ring_index(
                head,
                if p < head {
                    p - head + full
                } else {
                    p - head
                },
                full,
            );
        }
    }

    /// A queue whose head is slot 0 and whose first slots hold `items`, all
    /// the others being vacant, is well formed and holds `items`.
    proof fn lemma_laid_out_from_start(&self, items: Seq<T>)
        requires
            self.head == 0,
            self.size == items.len(),
            self.size <= self.data@.len(),
            forall|p: int|
                0 <= p < self.data@.len() ==> #[trigger] self.data@[p] == if p < self.size {
                    Some(items[p])
                } else {
                    None
                },
        ensures
            self.wf(),
            self@ == items,
    {
        let capacity = self.data@.len() as int;
        assert forall|i: int| 0 <= i < capacity implies (self.data@[#[trigger] ring_index(
            0,
            i,
            capacity,
        )] is Some <==> i < self.size) by {
            lemma_ring_index(0, i, capacity);
        }
        assert forall|i: int| 0 <= i < self.size implies self@[i] == items[i] by {
            lemma_ring_index(0, i, capacity);
        }
    }

    /// Lays the elements of a queue that was full before its buffer doubled
    /// out from slot 0 on. They wrap round the end of the old slots: first
    /// the ones at the start of the buffer move behind the old end, which
    /// makes one run from the head on; then that run moves down to slot 0.
    fn straighten(&mut self, Ghost(items): Ghost<Seq<T>>)
        requires
            0 < old(self).head < old(self).size,
            2 * old(self).size <= usize::MAX,
            items.len() == old(self).size,
            old(self).data@.len() == 2 * old(self).size,
            forall|p: int|
                0 <= p < 2 * old(self).size ==> #[trigger] old(self).data@[p] == if p < old(
                    self,
                ).head {
                    Some(items[p - old(self).head + old(self).size])
                } else if p < old(self).size {
                    Some(items[p - old(self).head])
                } else {
                    None
                },
        ensures
            final(self).head == 0,
            final(self).size == old(self).size,
            final(self).data@.len() == old(self).data@.len(),
            forall|p: int|
                0 <= p < final(self).data@.len() ==> #[trigger] final(self).data@[p] == if p
                    < final(self).size {
                    Some(items[p])
                } else {
                    None
                },
    {
        let full: usize = self.size;
        let head: usize = self.head;
        let mut moved: usize = 0;
        while moved < head
            invariant
                moved <= head < full,
                2 * full <= usize::MAX,
                items.len() == full,
                self.size == full,
                self.data@.len() == 2 * full,
                forall|p: int|
                    0 <= p < 2 * full ==> #[trigger] self.data@[p] == if p < moved {
                        None
                    } else if p < head {
                        Some(items[p - head + full])
                    } else if p < full + moved {
                        Some(items[p - head])
                    } else {
                        None
                    },
            decreases head - moved,
        {
            self.data.swap(moved, full + moved);
            moved += 1;
        }
        let mut placed: usize = 0;
        while placed < full
            invariant
                placed <= full,
                0 < head < full,
                2 * full <= usize::MAX,
                items.len() == full,
                self.size == full,
                self.data@.len() == 2 * full,
                forall|p: int|
                    0 <= p < 2 * full ==> #[trigger] self.data@[p] == if p < placed {
                        Some(items[p])
                    } else if p < head + placed {
                        None
                    } else if p < head + full {
                        Some(items[p - head])
                    } else {
                        None
                    },
            decreases full - placed,
        {
            self.data.swap(placed, head + placed);
            placed += 1;
        }
        self.head = 0;
    }

    /// Grows the buffer of a full queue and lays the elements out so that
    /// the oldest one is in slot 0 and the others follow it in order. Where
    /// the head is at slot 0 they already lie so.
    fn grow(&mut self)
        requires
            old(self).wf(),
            old(self).size == old(self).data@.len(),
            growable::<T>(old(self).data@.len()),
        ensures
            final(self).wf(),
            final(self)@ == old(self)@,
            final(self).size == old(self).size,
            final(self).head == 0,
            final(self).data@.len() == grown_capacity(old(self).data@.len()),
    {
        let ghost items = self@;
        proof {
            self.lemma_full_ring();
        }
        self.data.grow();
        if self.head != 0 {
            self.straighten(Ghost(items));
        }
        proof {
            self.lemma_laid_out_from_start(items);
        }
    }

    /// Adds `value` as the newest element. A queue that fills all its slots
    /// grows first: the elements keep their order, and the oldest one lies
    /// in slot 0 afterwards. Otherwise the head stays where it is.
    pub fn enqueue(&mut self, value: T)
        requires
            old(self).wf(),
            old(self)@.len() == old(self).spec_capacity() ==> growable::<T>(
                old(self).spec_capacity(),
            ),
        ensures
            final(self).wf(),
            final(self)@ == old(self)@.push(value),
            final(self).spec_capacity() == if old(self)@.len() == old(self).spec_capacity() {
                grown_capacity(old(self).spec_capacity())
            } else {
                old(self).spec_capacity()
            },
            final(self).head_slot() == if old(self)@.len() == old(self).spec_capacity() {
                0
            } else {
                old(self).head_slot()
            },
    {
        if self.size == self.data.capacity() {
            self.grow();
        }
        let ghost before = *self;
        let capacity = self.data.capacity();
        let slot = physical_index(self.head, self.size, capacity);
        self.data.write(slot, value);
        self.size = self.size + 1;
        proof {
            let head = self.head as int;
            let cap = capacity as int;
            lemma_ring_index(head, before.size as int, cap);
            assert forall|i: int| 0 <= i < cap implies (self.data@[#[trigger] ring_index(
                head,
                i,
                cap,
            )] is Some <==> i < self.size) by {
                lemma_ring_index(head, i, cap);
            }
            assert forall|i: int| 0 <= i < before.size implies self@[i] == before@[i] by {
                lemma_ring_index(head, i, cap);
            }
        }
    }

    /// Adds `value` as `enqueue` does, or hands it back and leaves the queue
    /// as it is where the queue is full and its buffer cannot grow.
    pub fn try_enqueue(&mut self, value: T) -> (outcome: Result<(), T>)
        requires
            old(self).wf(),
        ensures
            final(self).wf(),
            match outcome {
                Ok(_) => {
                    &&& old(self)@.len() == old(self).spec_capacity() ==> growable::<T>(
                        old(self).spec_capacity(),
                    )
                    &&& final(self)@ == old(self)@.push(value)
                    &&& final(self).spec_capacity() == if old(self)@.len() == old(
                        self,
                    ).spec_capacity() {
                        grown_capacity(old(self).spec_capacity())
                    } else {
                        old(self).spec_capacity()
                    }
                    &&& final(self).head_slot() == if old(self)@.len() == old(
                        self,
                    ).spec_capacity() {
                        0
                    } else {
                        old(self).head_slot()
                    }
                },
                Err(back) => {
                    &&& old(self)@.len() == old(self).spec_capacity()
                    &&& !growable::<T>(old(self).spec_capacity())
                    &&& back == value
                    &&& *final(self) == *old(self)
                },
            },
    {
        if self.size < self.data.capacity() || self.data.can_grow() {
            self.enqueue(value);
            Ok(())
        } else {
            Err(value)
        }
    }

    /// The oldest element, left in the queue; `None` where the queue is
    /// empty.
    pub fn peek(&self) -> (oldest: Option<&T>)
        requires
            self.wf(),
        ensures
            first(self@) == match oldest {
                Some(value) => Some(*value),
                None => None,
            },
    {
        if self.size == 0 {
            return None;
        }
        proof {
            lemma_ring_index(self.head as int, 0, self.data@.len() as int);
        }
        Some(self.data.get(self.head))
    }

    /// Takes the oldest element out of the queue and moves the head one
    /// slot on, round the ring; `None`, and no change, where the queue is
    /// empty.
    pub fn dequeue(&mut self) -> (oldest: Option<T>)
        requires
            old(self).wf(),
        ensures
            final(self).wf(),
            oldest == first(old(self)@),
            final(self)@ == without_first(old(self)@),
            final(self).spec_capacity() == old(self).spec_capacity(),
            final(self).head_slot() == if old(self)@.len() == 0 {
                old(self).head_slot()
            } else {
                ring_index(old(self).head_slot(), 1, old(self).spec_capacity() as int)
            },
    {
        if self.size == 0 {
            return None;
        }
        let capacity = self.data.capacity();
        proof {
            lemma_ring_index(self.head as int, 0, capacity as int);
        }
        let value = self.data.read(self.head);
        self.head = physical_index(self.head, 1, capacity);
        self.size = self.size - 1;
        proof {
            let head = old(self).head as int;
            let cap = capacity as int;
            lemma_ring_index(head, 1, cap);
            assert forall|i: int| 0 <= i < cap implies (self.data@[#[trigger] ring_index(
                self.head as int,
                i,
                cap,
            )] is Some <==> i < self.size) by {
                lemma_ring_index(self.head as int, i, cap);
                lemma_ring_index(head, i + 1, cap);
            }
            assert forall|i: int| 0 <= i < self.size implies self@[i] == old(self)@[i + 1] by {
                lemma_ring_index(self.head as int, i, cap);
                lemma_ring_index(head, i + 1, cap);
            }
        }
        Some(value)
    }
}

} // verus!
