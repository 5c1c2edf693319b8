use crate::bitslice::BitSlice;
use crate::layout::put_bit;
use crate::order::{BitOrder, ByteOrder};
use crate::store::{ByteStore, ByteStoreMut};
use vstd::prelude::*;

verus! {

/// The item that a cursor at `position` over `bits` yields next, if any.
pub open spec fn item_at(bits: Seq<bool>, position: nat) -> Option<bool> {
    if position < bits.len() {
        Some(bits[position as int])
    } else {
        None
    }
}

/// Where a cursor at `position` over `len` bits stands after one step: one
/// further, unless it stood at the end.
pub open spec fn next_position(position: nat, len: nat) -> nat {
    if position < len {
        position + 1
    } else {
        position
    }
}

/// Where a cursor at `position` over `len` bits stands after `steps` steps.
pub open spec fn position_after(position: nat, len: nat, steps: nat) -> nat
    decreases steps,
{
    if steps == 0 {
        position
    } else {
        position_after(next_position(position, len), len, (steps - 1) as nat)
    }
}

/// A cursor over the bits of a view, from its first bit to its last.
#[derive(Debug)]
pub struct BitIter<S, B, E> {
    slice: BitSlice<S, B, E>,
    idx: usize,
}

impl<S: ByteStore, B: BitOrder, E: ByteOrder> BitIter<S, B, E> {
    /// The cursor stands inside a well-formed view, or at its end.
    pub open spec fn wf(&self) -> bool {
        &&& self.inner().wf()
        &&& self.position() <= self.inner().len()
    }

    /// The view that the cursor walks.
    pub closed spec fn inner(&self) -> BitSlice<S, B, E> {
        self.slice
    }

    /// Index of the bit that the cursor yields next.
    pub closed spec fn position(&self) -> nat {
        self.idx as nat
    }

    /// The bits still to come.
    pub open spec fn remaining(&self) -> Seq<bool> {
        self.inner()@.skip(self.position() as int)
    }

    /// A cursor at the first bit of `slice`.
    pub(crate) fn over(slice: BitSlice<S, B, E>) -> (iter: Self)
        requires
            slice.wf(),
        ensures
            iter.wf(),
            iter.inner() == slice,
            iter.position() == 0,
    {
        BitIter { slice, idx: 0 }
    }

    /// Yields the bit under the cursor and moves one bit on; at the end of
    /// the view yields nothing and stays.
    pub fn next(&mut self) -> (item: Option<bool>)
        requires
            old(self).wf(),
        ensures
            final(self).wf(),
            final(self).inner() == old(self).inner(),
            item == item_at(old(self).inner()@, old(self).position()),
            final(self).position() == next_position(
                old(self).position(),
                old(self).inner()@.len(),
            ),
    {
        if self.idx < self.slice.len() {
            let bit = self.slice.get_bit(self.idx);
            self.idx += 1;
            Some(bit)
        } else {
            None
        }
    }

    /// The last bit of the view, unless the cursor stands at the end.
    #[inline(always)]
    pub fn last(self) -> (item: Option<bool>)
        requires
            self.wf(),
        ensures
            item == (if self.remaining().len() > 0 {
                Some(self.inner()@.last())
            } else {
                None
            }),
    {
        if self.len() > 0 {
            Some(self.slice.get_bit(self.slice.len() - 1))
        } else {
            None
        }
    }

    /// Moves `n` bits on, or to the end of the view if that comes first, and
    /// then yields as `next` does.
    #[inline(always)]
    pub fn nth(&mut self, n: usize) -> (item: Option<bool>)
        requires
            old(self).wf(),
        ensures
            final(self).wf(),
            final(self).inner() == old(self).inner(),
            item == item_at(
                old(self).inner()@,
                position_after(old(self).position(), old(self).inner()@.len(), n as nat),
            ),
            final(self).position() == position_after(
                old(self).position(),
                old(self).inner()@.len(),
                (n + 1) as nat,
            ),
    {
        let left: usize = self.slice.len() - self.idx;
        proof {
            lemma_position_after(self.idx as nat, self.slice.len() as nat, n as nat);
            lemma_position_after(self.idx as nat, self.slice.len() as nat, (n + 1) as nat);
        }
        if n < left {
            self.idx += n;
        } else {
            self.idx = self.slice.len();
        }
        self.next()
    }

    /// Number of bits still to come.
    #[inline(always)]
    pub fn count(self) -> (n: usize)
        requires
            self.wf(),
        ensures
            n == self.remaining().len(),
    {
        self.slice.len() - self.idx
    }

    /// Number of bits still to come, as its own lower and upper bound.
    #[inline(always)]
    pub fn size_hint(&self) -> (hint: (usize, Option<usize>))
        requires
            self.wf(),
        ensures
            hint.0 == self.remaining().len(),
            hint.1 == Some(hint.0),
    {
        let len: usize = self.slice.len() - self.idx;
        (len, Some(len))
    }

    /// Number of bits still to come.
    pub fn len(&self) -> (n: usize)
        requires
            self.wf(),
        ensures
            n == self.remaining().len(),
    {
        self.slice.len() - self.idx
    }
}

impl<S: ByteStoreMut, B: BitOrder, E: ByteOrder> BitIter<S, B, E> {
    /// Writes `value` to the bit under the cursor and moves one bit on.
    pub fn set_next_bit(&mut self, value: bool)
        requires
            old(self).wf(),
            old(self).position() < old(self).inner()@.len(),
        ensures
            final(self).wf(),
            final(self).position() == old(self).position() + 1,
            final(self).inner()@ == old(self).inner()@.update(old(self).position() as int, value),
            final(self).inner().bytes() == put_bit(
                old(self).inner().bytes(),
                old(self).inner().bit_order(),
                old(self).inner().byte_order(),
                (old(self).inner().start() + old(self).position()) as int,
                value,
            ),
            final(self).inner().start() == old(self).inner().start(),
            final(self).inner().len() == old(self).inner().len(),
            final(self).inner().bit_order() == old(self).inner().bit_order(),
            final(self).inner().byte_order() == old(self).inner().byte_order(),
    {
        self.slice.set_bit(self.idx, value);
        self.idx += 1;
    }
}

/// After `steps` steps a cursor has moved `steps` bits on, or stands at the
/// end of the view if that came first.
pub proof fn lemma_position_after(position: nat, len: nat, steps: nat)
    requires
        position <= len,
    ensures
        position_after(position, len, steps) == (if position + steps <= len {
            position + steps
        } else {
            len
        }),
    decreases steps,
{
    if steps > 0 {
        lemma_position_after(next_position(position, len), len, (steps - 1) as nat);
    }
}

} // verus!
