//! Fixed-size circular buffer.

use vstd::prelude::*;

verus! {

/// Fixed-size ring buffer for O(1) sliding window operations.
#[derive(Debug)]
pub struct RingBuffer<T> {
    /// Grows to `capacity`, then stays.
    buffer: Vec<T>,
    capacity: usize,
    /// Position of the next write.
    head: usize,
}

impl<T> View for RingBuffer<T> {
    type V = Seq<T>;

    /// The values, oldest first.
    closed spec fn view(&self) -> Seq<T> {
        if self.buffer@.len() == self.capacity {
            self.buffer@.skip(self.head as int) + self.buffer@.take(self.head as int)
        } else {
            self.buffer@
        }
    }
}

impl<T: Copy> RingBuffer<T> {
    /// The write position is behind the values, and wraps around at the end.
    pub closed spec fn wf(&self) -> bool {
        &&& self.buffer@.len() <= self.capacity
        &&& self.buffer@.len() < self.capacity ==> self.head == self.buffer@.len()
        &&& self.head < self.capacity || (self.capacity == 0 && self.head == 0)
    }

    /// How many values fit.
    pub closed spec fn room(&self) -> usize {
        self.capacity
    }

    /// A buffer never holds more values than fit.
    pub proof fn law_never_holds_more_than_fit(&self)
        requires
            self.wf(),
        ensures
            self@.len() <= self.room(),
    {
    }

    /// Creates a new ring buffer with the specified capacity.
    pub fn new(capacity: usize) -> (r: Self)
        ensures
            r.wf(),
            r.room() == capacity,
            r@ == Seq::<T>::empty(),
    {
        let r = RingBuffer { buffer: Vec::new(), capacity, head: 0 };
        assert(r@ =~= Seq::empty());
        r
    }

    /// Pushes a value and returns the evicted value (if buffer was full).
    pub fn push(&mut self, value: T) -> (r: Option<T>)
        requires
            old(self).wf(),
            old(self).room() > 0,
        ensures
            final(self).wf(),
            final(self).room() == old(self).room(),
            if old(self)@.len() == old(self).room() {
                &&& r == Some(old(self)@[0])
                &&& final(self)@ == old(self)@.drop_first().push(value)
            } else {
                &&& r is None
                &&& final(self)@ == old(self)@.push(value)
            },
            final(self)@.len() <= final(self).room(),
    {
        let ghost before = self.buffer@;
        let ghost h = self.head as int;
        let evicted = if self.buffer.len() == self.capacity {
            let oldest = self.buffer[self.head];
            self.buffer[self.head] = value;
            Some(oldest)
        } else {
            self.buffer.push(value);
            None
        };
        self.head = if self.head + 1 == self.capacity {
            0
        } else {
            self.head + 1
        };
        proof {
            let after = self.buffer@;
            if before.len() == self.capacity {
                let was = before.skip(h) + before.take(h);
                assert(was[0] == before[h]);
                if h + 1 == self.capacity {
                    assert(after.skip(0) + after.take(0) =~= was.drop_first().push(value));
                } else {
                    assert(after.skip(h + 1) + after.take(h + 1) =~= was.drop_first().push(value));
                }
            } else if before.len() + 1 == self.capacity {
                assert(after.skip(0) + after.take(0) =~= before.push(value));
            }
        }
        evicted
    }

    /// Returns true if the buffer is full.
    pub fn is_full(&self) -> (r: bool)
        requires
            self.wf(),
        ensures
            r == (self@.len() == self.room()),
            self@.len() <= self.room(),
    {
        self.buffer.len() == self.capacity
    }

    /// Returns the number of elements in the buffer.
    pub fn len(&self) -> (r: usize)
        requires
            self.wf(),
        ensures
            r == self@.len(),
            r <= self.room(),
    {
        self.buffer.len()
    }

    /// Returns true if the buffer is empty.
    pub fn is_empty(&self) -> (r: bool)
        requires
            self.wf(),
        ensures
            r == (self@.len() == 0),
    {
        self.buffer.len() == 0
    }

    /// Clears the buffer.
    pub fn clear(&mut self)
        requires
            old(self).wf(),
        ensures
            final(self).wf(),
            final(self).room() == old(self).room(),
            final(self)@ == Seq::<T>::empty(),
    {
        self.buffer.clear();
        self.head = 0;
        assert(self@ =~= Seq::empty());
    }

    /// Returns the capacity of the buffer.
    pub fn capacity(&self) -> (r: usize)
        ensures
            r == self.room(),
    {
        self.capacity
    }

    /// Gets the value at the given index (0 = oldest).
    pub fn get(&self, index: usize) -> (r: Option<T>)
        requires
            self.wf(),
        ensures
            r == (if index < self@.len() {
                Some(self@[index as int])
            } else {
                None
            }),
    {
        let n: usize = self.buffer.len();
        if index >= n {
            return None;
        }
        if n == self.capacity {
            if index < n - self.head {
                Some(self.buffer[self.head + index])
            } else {
                Some(self.buffer[index - (n - self.head)])
            }
        } else {
            Some(self.buffer[index])
        }
    }
}

/// The values after a run of pushes into a buffer with room for `room`.
pub open spec fn after_pushes<T>(room: nat, values: Seq<T>) -> Seq<T>
    decreases values.len(),
{
    if values.len() == 0 {
        Seq::empty()
    } else {
        let before = after_pushes(room, values.drop_last());
        if before.len() == room {
            before.drop_first().push(values.last())
        } else {
            before.push(values.last())
        }
    }
}

/// The buffer holds the most recent values, in order: all of them while they
/// fit, the last `room` after that.
pub proof fn law_holds_most_recent<T>(room: nat, values: Seq<T>)
    requires
        room > 0,
    ensures
        after_pushes(room, values) == (if values.len() <= room {
            values
        } else {
            values.skip(values.len() - room)
        }),
    decreases values.len(),
{
    if values.len() > 0 {
        law_holds_most_recent(room, values.drop_last());
        let after = after_pushes(room, values);
        if values.len() <= room {
            assert(after =~= values);
        } else {
            assert(after =~= values.skip(values.len() - room));
        }
    } else {
        assert(after_pushes(room, values) =~= values);
    }
}

} // verus!
