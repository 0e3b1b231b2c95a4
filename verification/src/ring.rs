//! A fixed-capacity ring of the most recently written values.
//!
//! The ring is always full: it starts out holding `capacity` copies of a fill
//! value, and every write replaces the oldest value that is still retained.
//! Its view is the retained values in chronological order, oldest first; its
//! slots and its write position say how they are stored.

use vstd::arithmetic::div_mod::{lemma_mod_self_0, lemma_small_mod};
use vstd::prelude::*;

verus! {

/// What a ring holding `retained` holds after `value` is written to it: the
/// oldest value leaves and `value` becomes the newest. A ring without room
/// retains nothing.
pub open spec fn after_push<T>(retained: Seq<T>, value: T) -> Seq<T> {
    if retained.len() == 0 {
        retained
    } else {
        retained.drop_first().push(value)
    }
}

/// What a ring holding `retained` holds after `values` are written to it in
/// order.
pub open spec fn after_pushes<T>(retained: Seq<T>, values: Seq<T>) -> Seq<T>
    decreases values.len(),
{
    if values.len() == 0 {
        retained
    } else {
        after_push(after_pushes(retained, values.drop_last()), values.last())
    }
}

/// A ring that holds `capacity` copies of `fill`: its state before any write.
pub open spec fn filled<T>(capacity: nat, fill: T) -> Seq<T> {
    Seq::new(capacity, |i: int| fill)
}

/// The slots of a ring read in chronological order. The slot at the write
/// position is the next to be overwritten, so it holds the oldest value; the
/// slots from there to the end come first, then those before it.
pub open spec fn chronological<T>(slots: Seq<T>, position: nat) -> Seq<T> {
    slots.subrange(position as int, slots.len() as int) + slots.subrange(0, position as int)
}

/// Fixed-capacity buffer that keeps the last `capacity` values written to it.
/// The capacity is positive and never changes.
pub struct RingBuffer<T> {
    data: Vec<T>,
    capacity: usize,
    index: usize,
}

impl<T> View for RingBuffer<T> {
    type V = Seq<T>;

    /// The retained values, oldest first.
    open spec fn view(&self) -> Seq<T> {
        chronological(self.slots(), self.position())
    }
}

impl<T> RingBuffer<T> {
    #[verifier::type_invariant]
    spec fn well_formed(self) -> bool {
        &&& self.data@.len() == self.capacity
        &&& self.capacity > 0
        &&& self.index < self.capacity
    }

    /// The stored values, slot by slot. There are as many as the capacity.
    pub closed spec fn slots(&self) -> Seq<T> {
        self.data@
    }

    /// The write position: the slot that the next write fills.
    pub closed spec fn position(&self) -> nat {
        self.index as nat
    }
}

/// What one write does to a ring: the value lands in the slot at the write
/// position, every other slot keeps what it held, and the write position
/// moves on by one modulo the capacity, which is back to the first slot after
/// the last.
pub open spec fn written<T>(before: RingBuffer<T>, after: RingBuffer<T>, value: T) -> bool {
    &&& before.position() < before.slots().len()
    &&& after.slots() == before.slots().update(before.position() as int, value)
    &&& after.position() == (before.position() + 1) % before.slots().len()
    &&& after.position() == if before.position() + 1 == before.slots().len() {
        0
    } else {
        before.position() + 1
    }
}

impl<T: Copy> RingBuffer<T> {
    /// Creates a ring of `capacity` slots, each holding `fill`, with the write
    /// position at the first slot.
    pub fn new(capacity: usize, fill: T) -> (buffer: Self)
        requires
            capacity > 0,
        ensures
            buffer.slots() == filled(capacity as nat, fill),
            buffer.position() == 0,
            buffer@ == filled(capacity as nat, fill),
    {
        let mut data: Vec<T> = Vec::with_capacity(capacity);
        let mut made: usize = 0;
        while made < capacity
            invariant
                made <= capacity,
                data@ == filled(made as nat, fill),
            decreases capacity - made,
        {
            data.push(fill);
            made = made + 1;
        }
        let buffer = RingBuffer { data, capacity, index: 0 };
        assert(buffer@ =~= filled(capacity as nat, fill));
        buffer
    }

    /// The number of values the ring retains, which is the number of its
    /// slots. It is positive, and the write position lies below it.
    pub fn capacity(&self) -> (capacity: usize)
        ensures
            capacity == self.slots().len(),
            capacity == self@.len(),
            capacity > 0,
            self.position() < capacity,
    {
        proof {
            use_type_invariant(self);
        }
        self.capacity
    }

    /// Writes `value` over the oldest retained value.
    pub fn push(&mut self, value: T)
        ensures
            written(*old(self), *final(self), value),
            final(self)@ == after_push(old(self)@, value),
    {
        proof {
            use_type_invariant(&*self);
        }
        self.data[self.index] = value;
        self.index = (self.index + 1) % self.capacity;
        proof {
            let position = old(self).index as int;
            let slots = old(self).data@;
            assert(self.data@ == slots.update(position, value));
            if position + 1 == slots.len() {
                lemma_mod_self_0(slots.len() as int);
            } else {
                lemma_small_mod((position + 1) as nat, slots.len());
            }
            assert(self@ =~= after_push(old(self)@, value));
        }
    }

    /// Copies out the retained values in chronological order: the oldest is
    /// first and the most recently written is last. Reading changes nothing,
    /// so two reads with no write between them copy out the same values.
    pub fn as_vec(&self) -> (snapshot: Vec<T>)
        ensures
            snapshot@ == self@,
            snapshot@.len() == self.slots().len(),
    {
        proof {
            use_type_invariant(self);
        }
        let mut snapshot: Vec<T> = Vec::with_capacity(self.capacity);
        let mut from: usize = self.index;
        while from < self.capacity
            invariant
                self.data@.len() == self.capacity,
                self.index <= from <= self.capacity,
                snapshot@ == self.data@.subrange(self.index as int, from as int),
            decreases self.capacity - from,
        {
            snapshot.push(self.data[from]);
            from = from + 1;
        }
        let mut wrapped: usize = 0;
        while wrapped < self.index
            invariant
                self.data@.len() == self.capacity,
                wrapped <= self.index <= self.capacity,
                snapshot@ == self.data@.subrange(self.index as int, self.capacity as int)
                    + self.data@.subrange(0, wrapped as int),
            decreases self.index - wrapped,
        {
            snapshot.push(self.data[wrapped]);
            wrapped = wrapped + 1;
        }
        snapshot
    }
}

/// However many values are written, the ring retains as many as before.
pub proof fn lemma_capacity_is_kept<T>(retained: Seq<T>, values: Seq<T>)
    ensures
        after_pushes(retained, values).len() == retained.len(),
    decreases values.len(),
{
    if values.len() > 0 {
        lemma_capacity_is_kept(retained, values.drop_last());
    }
}

/// After any run of writes the ring retains the end of what it held before
/// followed by what was written: the last `retained.len()` values of the two
/// laid end to end.
pub proof fn lemma_latest_are_retained<T>(retained: Seq<T>, values: Seq<T>)
    ensures
        after_pushes(retained, values) == (retained + values).subrange(
            values.len() as int,
            (values.len() + retained.len()) as int,
        ),
    decreases values.len(),
{
    if values.len() > 0 {
        lemma_latest_are_retained(retained, values.drop_last());
    }
    assert(after_pushes(retained, values) =~= (retained + values).subrange(
        values.len() as int,
        (values.len() + retained.len()) as int,
    ));
}

/// Overwrite-oldest: once at least `capacity` values have been written to a
/// fresh ring, it retains exactly the last `capacity` of them, in the order
/// in which they were written.
pub proof fn lemma_overwrite_oldest<T>(capacity: nat, fill: T, values: Seq<T>)
    requires
        values.len() >= capacity,
    ensures
        after_pushes(filled(capacity, fill), values) == values.subrange(
            values.len() - capacity,
            values.len() as int,
        ),
{
    lemma_latest_are_retained(filled(capacity, fill), values);
    assert((filled(capacity, fill) + values).subrange(
        values.len() as int,
        (values.len() + capacity) as int,
    ) =~= values.subrange(values.len() - capacity, values.len() as int));
}

} // verus!
