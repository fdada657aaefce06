//! A growable region of slots, each either vacant or holding one value.
//!
//! The buffer owns the storage and nothing else: it keeps no count of how
//! many slots are in use. The container built on top decides which slots are
//! live and must only read a slot it has written.
//!
//! A vacant slot holds nothing that needs to be destroyed, so a buffer can be
//! dropped at any time: what is still in it is destroyed once, and a value
//! that was moved out is not touched again.
//!
//! No allocation is larger than `isize::MAX` bytes. A buffer is made, and
//! grows, only where its slots stay within that limit; `can_hold` and
//! `can_grow` test it, and the `try_` functions test before they act. The
//! contracts say nothing of a machine that runs out of memory below that
//! limit: as with any `Vec`, the process ends there.

use vstd::layout::size_of;
use vstd::prelude::*;

verus! {

/// The capacity a buffer of `capacity` slots has after growing once.
pub open spec fn grown_capacity(capacity: nat) -> nat {
    if capacity == 0 {
        4
    } else {
        2 * capacity
    }
}

/// Whether one allocation can hold `capacity` slots for values of type `T`.
/// A slot takes the room of a value, and more where a vacant slot needs a
/// mark of its own; neither count of bytes may exceed `isize::MAX`.
pub open spec fn allocatable<T>(capacity: nat) -> bool {
    &&& capacity * size_of::<T>() <= isize::MAX
    &&& capacity * size_of::<Option<T>>() <= isize::MAX
}

/// Whether a buffer of `capacity` slots for values of type `T` can grow once:
/// the grown capacity is within `usize`, and one allocation can hold it.
pub open spec fn growable<T>(capacity: nat) -> bool {
    &&& grown_capacity(capacity) <= usize::MAX
    &&& allocatable::<T>(grown_capacity(capacity))
}

/// `n` vacant slots.
pub open spec fn vacant<T>(n: nat) -> Seq<Option<T>> {
    Seq::new(n, |i: int| None::<T>)
}

/// The slots after the run of `len` slots that starts at `src` has been
/// copied to the run that starts at `dst`: the target run holds what the
/// source run holds, and every other slot, the source run included, is as it
/// was.
pub open spec fn copied<T>(slots: Seq<Option<T>>, src: int, dst: int, len: int) -> Seq<Option<T>> {
    Seq::new(
        slots.len(),
        |i: int|
            if dst <= i < dst + len {
                slots[src + (i - dst)]
            } else {
                slots[i]
            },
    )
}

/// Whether `count` items of `size` bytes each stay within `isize::MAX` bytes.
fn within_limit(count: usize, size: usize) -> (ok: bool)
    ensures
        ok == (count * size <= isize::MAX),
{
    match count.checked_mul(size) {
        Some(bytes) => bytes <= isize::MAX as usize,
        None => false,
    }
}

/// Storage for `capacity` values of type `T`.
///
/// The view is the sequence of slots: `None` for a vacant slot, `Some(v)` for
/// a slot that holds `v`.
#[derive(Debug, PartialEq)]
pub struct Buffer<T> {
    slots: Vec<Option<T>>,
}

impl<T> View for Buffer<T> {
    type V = Seq<Option<T>>;

    closed spec fn view(&self) -> Seq<Option<T>> {
        self.slots@
    }
}

impl<T> Buffer<T> {
    /// A buffer without any slot.
    pub fn new() -> (buffer: Self)
        ensures
            buffer@ == Seq::<Option<T>>::empty(),
    {
        Buffer { slots: Vec::new() }
    }

    /// Whether one allocation can hold `size` slots.
    pub fn can_hold(size: usize) -> (ok: bool)
        ensures
            ok == allocatable::<T>(size as nat),
    {
        within_limit(size, core::mem::size_of::<T>()) && within_limit(
            size,
            core::mem::size_of::<Option<T>>(),
        )
    }

    /// Whether the buffer can grow once.
    pub fn can_grow(&self) -> (ok: bool)
        ensures
            ok == growable::<T>(self@.len()),
    {
        let capacity: usize = self.slots.len();
        if capacity == 0 {
            Self::can_hold(4)
        } else if capacity <= usize::MAX / 2 {
            Self::can_hold(2 * capacity)
        } else {
            false
        }
    }

    /// A buffer of exactly `size` vacant slots.
    pub fn with_capacity(size: usize) -> (buffer: Self)
        requires
            allocatable::<T>(size as nat),
        ensures
            buffer@ == vacant::<T>(size as nat),
    {
        let mut slots: Vec<Option<T>> = Vec::with_capacity(size);
        let mut done: usize = 0;
        while done < size
            invariant
                done <= size,
                slots@ == vacant::<T>(done as nat),
            decreases size - done,
        {
            slots.push(None);
            done += 1;
        }
        Buffer { slots }
    }

    /// A buffer of exactly `size` vacant slots, or `None` where one
    /// allocation cannot hold that many.
    pub fn try_with_capacity(size: usize) -> (made: Option<Self>)
        ensures
            match made {
                Some(buffer) => allocatable::<T>(size as nat) && buffer@ == vacant::<T>(
                    size as nat,
                ),
                None => !allocatable::<T>(size as nat),
            },
    {
        if Self::can_hold(size) {
            Some(Self::with_capacity(size))
        } else {
            None
        }
    }

    /// Doubles the capacity, or makes it 4 where it was 0. Every slot keeps
    /// its index and its content; the added slots are vacant.
    pub fn grow(&mut self)
        requires
            growable::<T>(old(self)@.len()),
        ensures
            final(self)@ == old(self)@ + vacant::<T>(
                (grown_capacity(old(self)@.len()) - old(self)@.len()) as nat,
            ),
    {
        let before: usize = self.slots.len();
        let added: usize = if before == 0 {
            4
        } else {
            before
        };
        self.slots.reserve(added);
        let mut done: usize = 0;
        while done < added
            invariant
                done <= added,
                before + added <= usize::MAX,
                self.slots@ == old(self)@ + vacant::<T>(done as nat),
            decreases added - done,
        {
            self.slots.push(None);
            done += 1;
        }
    }

    /// Grows the buffer as `grow` does and returns `true`, or leaves it as
    /// it is and returns `false` where it cannot grow.
    pub fn try_grow(&mut self) -> (grown: bool)
        ensures
            grown == growable::<T>(old(self)@.len()),
            final(self)@ == if grown {
                old(self)@ + vacant::<T>(
                    (grown_capacity(old(self)@.len()) - old(self)@.len()) as nat,
                )
            } else {
                old(self)@
            },
    {
        if self.can_grow() {
            self.grow();
            true
        } else {
            false
        }
    }

    /// The number of slots.
    pub fn capacity(&self) -> (capacity: usize)
        ensures
            capacity == self@.len(),
    {
        self.slots.len()
    }

    /// Moves the value out of slot `index`, which is vacant afterwards.
    pub fn read(&mut self, index: usize) -> (value: T)
        requires
            index < old(self)@.len(),
            old(self)@[index as int] is Some,
        ensures
            Some(value) == old(self)@[index as int],
            final(self)@ == old(self)@.update(index as int, None),
    {
        let taken = self.slots[index].take();
        taken.unwrap()
    }

    /// Puts `value` into slot `index`, in place of whatever was there.
    pub fn write(&mut self, index: usize, value: T)
        requires
            index < old(self)@.len(),
        ensures
            final(self)@ == old(self)@.update(index as int, Some(value)),
    {
        self.slots[index] = Some(value);
    }

    /// The value in slot `index`, left where it is.
    pub fn get(&self, index: usize) -> (value: &T)
        requires
            index < self@.len(),
            self@[index as int] is Some,
        ensures
            Some(*value) == self@[index as int],
    {
        self.slots[index].as_ref().unwrap()
    }

    /// Exchanges the contents of slots `i` and `j`, vacant or not.
    pub fn swap(&mut self, i: usize, j: usize)
        requires
            i < old(self)@.len(),
            j < old(self)@.len(),
        ensures
            final(self)@ == old(self)@.update(i as int, old(self)@[j as int]).update(
                j as int,
                old(self)@[i as int],
            ),
    {
        let first = self.slots[i].take();
        let second = self.slots[j].take();
        self.slots[i] = second;
        self.slots[j] = first;
    }
}

impl<T: Copy> Buffer<T> {
    /// Copies the contents of the `len` slots from `src` on into the `len`
    /// slots from `dst` on, slot by slot. The two runs do not overlap. The
    /// slots copied from stay as they are, so a value stands in two slots
    /// afterwards: that is why the values must be `Copy`.
    pub fn copy(&mut self, src: usize, dst: usize, len: usize)
        requires
            src < old(self)@.len(),
            src + len <= old(self)@.len(),
            dst < old(self)@.len(),
            dst + len <= old(self)@.len(),
            src + len <= dst || dst + len <= src,
        ensures
            final(self)@ == copied(old(self)@, src as int, dst as int, len as int),
    {
        let mut done: usize = 0;
        while done < len
            invariant
                done <= len,
                src + len <= old(self)@.len(),
                dst + len <= old(self)@.len(),
                src + len <= dst || dst + len <= src,
                self.slots.len() == old(self)@.len(),
                self.slots@ == copied(old(self)@, src as int, dst as int, done as int),
            decreases len - done,
        {
            let value: Option<T> = self.slots[src + done];
            self.slots[dst + done] = value;
            done += 1;
        }
    }
}

} // verus!
