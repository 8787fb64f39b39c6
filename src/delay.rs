//! A circular delay buffer. The reverb's comb and all-pass filters, the
//! feedback delay and the plucked-string generator all keep their memory in
//! one; it is generic over the stored sample type.

use vstd::prelude::*;

verus! {

/// A fixed-length circular buffer with a cursor. `read` gives the oldest
/// slot, `write` overwrites it and moves the cursor on, so that a value
/// written now is read again after `len` writes.
pub struct DelayLine<T> {
    buffer: Vec<T>,
    index: usize,
}

impl<T: Copy> DelayLine<T> {
    pub closed spec fn contents(&self) -> Seq<T> {
        self.buffer@
    }

    pub closed spec fn cursor(&self) -> int {
        self.index as int
    }

    /// The cursor stands on a slot of a non-empty buffer.
    pub open spec fn wf(&self) -> bool {
        0 <= self.cursor() < self.contents().len()
    }

    /// The slot before the cursor, wrapping from the first to the last.
    pub open spec fn behind(&self) -> int {
        if self.cursor() == 0 {
            self.contents().len() - 1
        } else {
            self.cursor() - 1
        }
    }

    /// The cursor position after one move forward.
    pub open spec fn ahead(&self) -> int {
        if self.cursor() + 1 >= self.contents().len() {
            0
        } else {
            self.cursor() + 1
        }
    }

    /// A buffer of `length` slots, each holding `fill`, cursor at the start.
    pub fn new(length: usize, fill: T) -> (r: Self)
        requires
            length > 0,
        ensures
            r.wf(),
            r.cursor() == 0,
            r.contents() == Seq::new(length as nat, |i: int| fill),
    {
        let mut buffer: Vec<T> = Vec::new();
        let mut i: usize = 0;
        while i < length
            invariant
                i <= length,
                buffer@ == Seq::new(i as nat, |j: int| fill),
            decreases length - i,
        {
            buffer.push(fill);
            i = i + 1;
            assert(buffer@ =~= Seq::new(i as nat, |j: int| fill));
        }
        DelayLine { buffer, index: 0 }
    }

    /// A buffer holding `values` in order, cursor at the start.
    pub fn from_vec(values: Vec<T>) -> (r: Self)
        requires
            values@.len() > 0,
        ensures
            r.wf(),
            r.cursor() == 0,
            r.contents() == values@,
    {
        DelayLine { buffer: values, index: 0 }
    }

    /// Number of slots.
    pub fn len(&self) -> (r: usize)
        ensures
            r == self.contents().len(),
    {
        self.buffer.len()
    }

    /// Position of the cursor.
    pub fn index(&self) -> (r: usize)
        ensures
            r == self.cursor(),
    {
        self.index
    }

    /// The value under the cursor: the oldest one.
    pub fn read(&self) -> (r: T)
        requires
            self.wf(),
        ensures
            r == self.contents()[self.cursor()],
    {
        self.buffer[self.index]
    }

    /// Overwrites the slot under the cursor and moves the cursor forward.
    pub fn write(&mut self, value: T)
        requires
            old(self).wf(),
        ensures
            final(self).wf(),
            final(self).contents() == old(self).contents().update(old(self).cursor(), value),
            final(self).cursor() == old(self).ahead(),
    {
        self.buffer.set(self.index, value);
        if self.index >= self.buffer.len() - 1 {
            self.index = 0;
        } else {
            self.index = self.index + 1;
        }
    }

    /// The value in the slot before the cursor: the newest one.
    pub fn read_behind(&self) -> (r: T)
        requires
            self.wf(),
        ensures
            r == self.contents()[self.behind()],
    {
        if self.index == 0 {
            self.buffer[self.buffer.len() - 1]
        } else {
            self.buffer[self.index - 1]
        }
    }

    /// Overwrites the slot before the cursor; the cursor stays.
    pub fn write_behind(&mut self, value: T)
        requires
            old(self).wf(),
        ensures
            final(self).wf(),
            final(self).contents() == old(self).contents().update(old(self).behind(), value),
            final(self).cursor() == old(self).cursor(),
    {
        if self.index == 0 {
            let last = self.buffer.len() - 1;
            self.buffer.set(last, value);
        } else {
            self.buffer.set(self.index - 1, value);
        }
    }

    /// Moves the cursor forward one slot, wrapping at the end.
    pub fn advance(&mut self)
        requires
            old(self).wf(),
        ensures
            final(self).wf(),
            final(self).contents() == old(self).contents(),
            final(self).cursor() == old(self).ahead(),
    {
        if self.index >= self.buffer.len() - 1 {
            self.index = 0;
        } else {
            self.index = self.index + 1;
        }
    }
}

} // verus!
