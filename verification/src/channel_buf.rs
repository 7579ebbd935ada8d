use vstd::prelude::*;

use std::collections::VecDeque;

verus! {

/// A buffer that keeps the most recent items it was given, up to its
/// capacity: once full, taking an item drops the oldest one.
///
/// A buffer of capacity 0 drops nothing and keeps every item.
pub struct ChannelBuffer<T> {
    buffer: VecDeque<T>,
    capacity: usize,
}

impl<T> View for ChannelBuffer<T> {
    type V = Seq<T>;

    closed spec fn view(&self) -> Seq<T> {
        self.buffer@
    }
}

/// The items after taking `item`: the oldest goes first where the buffer
/// is full.
pub open spec fn pushed<T>(s: Seq<T>, capacity: nat, item: T) -> Seq<T> {
    if s.len() == capacity && s.len() > 0 {
        s.drop_first().push(item)
    } else {
        s.push(item)
    }
}

/// The items after taking each of `items` in order.
pub open spec fn pushed_all<T>(s: Seq<T>, capacity: nat, items: Seq<T>) -> Seq<T>
    decreases items.len(),
{
    if items.len() == 0 {
        s
    } else {
        pushed(pushed_all(s, capacity, items.drop_last()), capacity, items.last())
    }
}

impl<T> ChannelBuffer<T> {
    pub closed spec fn capacity_spec(self) -> nat {
        self.capacity as nat
    }

    /// An empty buffer that keeps at most `capacity` items.
    pub fn new(capacity: usize) -> (r: Self)
        ensures
            r@ == Seq::<T>::empty(),
            r.capacity_spec() == capacity,
    {
        ChannelBuffer { buffer: VecDeque::with_capacity(capacity), capacity }
    }

    /// How many items the buffer keeps.
    pub fn capacity(&self) -> (r: usize)
        ensures
            r == self.capacity_spec(),
    {
        self.capacity
    }

    /// How many items the buffer holds.
    pub fn len(&self) -> (r: usize)
        ensures
            r == self@.len(),
    {
        self.buffer.len()
    }

    /// Take an item, dropping the oldest one where the buffer is full.
    pub fn push(&mut self, item: T)
        requires
            old(self)@.len() < usize::MAX,
        ensures
            final(self)@ == pushed(old(self)@, old(self).capacity_spec(), item),
            final(self).capacity_spec() == old(self).capacity_spec(),
    {
        let ghost pre = self.buffer@;
        if self.buffer.len() == self.capacity {
            let _ = self.buffer.pop_front();
        }
        self.buffer.push_back(item);
        assert(self.buffer@ =~= pushed(pre, self.capacity as nat, item));
    }

    /// Hand out every item, oldest first, and empty the buffer.
    pub fn flush(&mut self) -> (r: Vec<T>)
        ensures
            r@ == old(self)@,
            final(self)@ == Seq::<T>::empty(),
            final(self).capacity_spec() == old(self).capacity_spec(),
    {
        let ghost items = self.buffer@;
        let mut out: Vec<T> = Vec::new();
        while self.buffer.len() > 0
            invariant
                out@ + self.buffer@ == items,
                self.capacity == old(self).capacity,
            decreases self.buffer@.len(),
        {
            match self.buffer.pop_front() {
                Some(x) => {
                    out.push(x);
                    assert(out@ + self.buffer@ =~= items);
                },
                None => {},
            }
        }
        assert(out@ =~= items);
        out
    }
}

/// From an empty buffer of positive capacity, the items kept are the last
/// ones taken, as many as the capacity allows, oldest first.
pub proof fn law_keeps_most_recent<T>(capacity: nat, items: Seq<T>)
    requires
        capacity > 0,
    ensures
        pushed_all(Seq::<T>::empty(), capacity, items) == items.skip(
            if items.len() > capacity {
                items.len() - capacity
            } else {
                0
            },
        ),
        pushed_all(Seq::<T>::empty(), capacity, items).len() <= capacity,
    decreases items.len(),
{
    if items.len() > 0 {
        let prev = items.drop_last();
        law_keeps_most_recent(capacity, prev);
        let s = pushed_all(Seq::<T>::empty(), capacity, prev);
        let k = if prev.len() > capacity { prev.len() - capacity } else { 0int };
        let k2 = if items.len() > capacity { items.len() - capacity } else { 0int };
        assert(s == prev.skip(k));
        if s.len() == capacity {
            assert(s.drop_first().push(items.last()) =~= items.skip(k2));
        } else {
            assert(s.push(items.last()) =~= items.skip(k2));
        }
    }
}

} // verus!
