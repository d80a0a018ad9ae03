//! A fixed-capacity ring that remembers the most recently written values.

use vstd::prelude::*;

verus! {

/// The last `n` elements of `s`, or all of `s` when it holds no more than `n`.
pub open spec fn most_recent<T>(s: Seq<T>, n: nat) -> Seq<T> {
    if s.len() <= n {
        s
    } else {
        s.subrange(s.len() - n, s.len() as int)
    }
}

/// What a ring of the given capacity holds after `values` were written to it,
/// one after the other, starting from an empty ring.
pub open spec fn written<T>(capacity: nat, values: Seq<T>) -> Seq<T>
    decreases values.len(),
{
    if values.len() == 0 {
        Seq::empty()
    } else {
        most_recent(written(capacity, values.drop_last()).push(values.last()), capacity)
    }
}

/// `most_recent(s, n)` has `min(n, s.len())` elements, and they are the last
/// elements of `s` in their order.
pub proof fn lemma_most_recent_is_suffix<T>(s: Seq<T>, n: nat)
    ensures
        most_recent(s, n).len() == if n <= s.len() {
            n
        } else {
            s.len()
        },
        forall|i: int|
            0 <= i < most_recent(s, n).len() ==> #[trigger] most_recent(s, n)[i] == s[s.len()
                - most_recent(s, n).len() + i],
{
}

/// Keeping the most recent `n` values commutes with appending: what was
/// already dropped plays no part in what is kept after the next write.
pub proof fn lemma_most_recent_push<T>(s: Seq<T>, n: nat, value: T)
    ensures
        most_recent(most_recent(s, n).push(value), n) == most_recent(s.push(value), n),
{
    assert(most_recent(most_recent(s, n).push(value), n) =~= most_recent(s.push(value), n));
}

/// Whatever is written to a ring, and however often it wraps around, it holds
/// exactly the most recent values in the order they were written: as many as
/// were written, capped at the capacity.
pub proof fn lemma_written_is_most_recent<T>(capacity: nat, values: Seq<T>)
    ensures
        written(capacity, values) == most_recent(values, capacity),
        written(capacity, values).len() == if values.len() <= capacity {
            values.len()
        } else {
            capacity
        },
    decreases values.len(),
{
    if values.len() > 0 {
        let front = values.drop_last();
        lemma_written_is_most_recent(capacity, front);
        lemma_most_recent_push(front, capacity, values.last());
        assert(front.push(values.last()) =~= values);
    }
}

/// One more write to a ring that holds what `values` left in it leaves what
/// `values` followed by the new value would have left.
pub proof fn lemma_written_push<T>(capacity: nat, values: Seq<T>, value: T)
    ensures
        most_recent(written(capacity, values).push(value), capacity) == written(
            capacity,
            values.push(value),
        ),
{
    assert(values.push(value).drop_last() =~= values);
}

/// Writing exactly as many values as the ring holds and then asking for that
/// many gives back the values themselves, in the order they were written.
pub proof fn lemma_fill_reads_back<T>(capacity: nat, values: Seq<T>)
    requires
        values.len() == capacity,
    ensures
        most_recent(written(capacity, values), capacity) == values,
{
    lemma_written_is_most_recent(capacity, values);
}

/// A ring of at most `capacity` values. Writing to a full ring overwrites the
/// oldest value. The view is the held values, oldest first.
pub struct CircularBuffer<T> {
    buffer: Vec<T>,
    capacity: usize,
    write_pos: usize,
}

impl<T> View for CircularBuffer<T> {
    type V = Seq<T>;

    closed spec fn view(&self) -> Seq<T> {
        self.buffer@.subrange(self.write_pos as int, self.buffer@.len() as int)
            + self.buffer@.subrange(0, self.write_pos as int)
    }
}

impl<T: Copy> CircularBuffer<T> {
    /// The representation invariant: every ring built by `new` and changed
    /// only through the methods below satisfies it.
    pub closed spec fn wf(&self) -> bool {
        &&& self.buffer@.len() <= self.capacity
        &&& self.buffer@.len() < self.capacity ==> self.write_pos == self.buffer@.len()
        &&& self.buffer@.len() == self.capacity ==> self.write_pos < self.capacity
            || self.write_pos == 0
    }

    /// The capacity the ring was made with.
    pub closed spec fn spec_capacity(&self) -> nat {
        self.capacity as nat
    }

    /// A well-formed ring never holds more than its capacity.
    pub proof fn lemma_len_bounded(&self)
        requires
            self.wf(),
        ensures
            self@.len() <= self.spec_capacity(),
    {
    }

    /// An empty ring that will hold up to `capacity` values.
    pub fn new(capacity: usize) -> (cb: Self)
        ensures
            cb.wf(),
            cb@ == Seq::<T>::empty(),
            cb.spec_capacity() == capacity,
    {
        CircularBuffer { buffer: Vec::new(), capacity, write_pos: 0 }
    }

    /// Appends `value`; a full ring drops its oldest value to make room.
    /// A ring of capacity 0 stays empty.
    pub fn write(&mut self, value: T)
        requires
            old(self).wf(),
        ensures
            final(self).wf(),
            final(self)@ == most_recent(old(self)@.push(value), old(self).spec_capacity()),
            final(self).spec_capacity() == old(self).spec_capacity(),
    {
        if self.capacity == 0 {
            return ;
        }
        let ghost before = self.buffer@;
        let ghost at = self.write_pos as int;
        if self.buffer.len() < self.capacity {
            self.buffer.push(value);
        } else {
            self.buffer.set(self.write_pos, value);
        }
        self.write_pos = if self.write_pos + 1 == self.capacity {
            0
        } else {
            self.write_pos + 1
        };
        assert(self@ =~= most_recent(
            (before.subrange(at, before.len() as int) + before.subrange(0, at)).push(value),
            self.capacity as nat,
        ));
    }

    /// The oldest value held, if any.
    pub fn read_oldest(&self) -> (oldest: Option<T>)
        requires
            self.wf(),
        ensures
            oldest == if self@.len() == 0 {
                None
            } else {
                Some(self@[0])
            },
    {
        if self.buffer.len() == 0 {
            return None;
        }
        if self.buffer.len() < self.capacity {
            Some(self.buffer[0])
        } else {
            Some(self.buffer[self.write_pos])
        }
    }

    /// The held values, oldest first.
    pub fn get_all_chronological(&self) -> (all: Vec<T>)
        requires
            self.wf(),
        ensures
            all@ == self@,
    {
        let count = self.buffer.len();
        let mut result: Vec<T> = Vec::new();
        if count == 0 {
            return result;
        }
        let mut i: usize = 0;
        while i < count
            invariant
                self.wf(),
                count == self.buffer@.len(),
                0 < count,
                i <= count,
                result@ == self@.subrange(0, i as int),
            decreases count - i,
        {
            let pos = if i < count - self.write_pos {
                self.write_pos + i
            } else {
                i - (count - self.write_pos)
            };
            result.push(self.buffer[pos]);
            i += 1;
            assert(result@ =~= self@.subrange(0, i as int));
        }
        assert(result@ =~= self@);
        result
    }

    /// The `n` most recently written values that are still held, oldest first.
    pub fn get_last_n(&self, n: usize) -> (last: Vec<T>)
        requires
            self.wf(),
        ensures
            last@ == most_recent(self@, n as nat),
            n == 0 ==> last@ == Seq::<T>::empty(),
            self@.len() == 0 ==> last@ == Seq::<T>::empty(),
    {
        if self.buffer.len() == 0 || n == 0 {
            return Vec::new();
        }
        let items_to_get = if n < self.buffer.len() {
            n
        } else {
            self.buffer.len()
        };
        let all = self.get_all_chronological();
        let mut result: Vec<T> = Vec::new();
        let start = all.len() - items_to_get;
        let mut i: usize = start;
        while i < all.len()
            invariant
                start <= i <= all@.len(),
                result@ == all@.subrange(start as int, i as int),
            decreases all@.len() - i,
        {
            result.push(all[i]);
            i += 1;
            assert(result@ =~= all@.subrange(start as int, i as int));
        }
        assert(result@ =~= most_recent(self@, n as nat));
        result
    }

    /// Whether the ring holds nothing.
    pub fn is_empty(&self) -> (empty: bool)
        requires
            self.wf(),
        ensures
            empty == (self@.len() == 0),
    {
        self.buffer.len() == 0
    }

    /// Whether the ring holds as many values as it has room for.
    pub fn is_full(&self) -> (full: bool)
        requires
            self.wf(),
        ensures
            full == (self@.len() == self.spec_capacity()),
    {
        self.buffer.len() == self.capacity
    }

    /// The number of values held.
    pub fn len(&self) -> (n: usize)
        requires
            self.wf(),
        ensures
            n == self@.len(),
            n <= self.spec_capacity(),
    {
        self.buffer.len()
    }

    /// The capacity the ring was made with.
    pub fn capacity(&self) -> (c: usize)
        ensures
            c == self.spec_capacity(),
    {
        self.capacity
    }

    /// Forgets every held value; the capacity stays.
    pub fn clear(&mut self)
        ensures
            final(self).wf(),
            final(self)@ == Seq::<T>::empty(),
            final(self).spec_capacity() == old(self).spec_capacity(),
    {
        self.write_pos = 0;
        self.buffer.clear();
    }
}

} // verus!
