use crate::bounds::{end_index, range_to_bounds, start_index, Bound};
use crate::error::Error;
use crate::iter::BitIter;
use crate::layout::{
    buffer_bits, capacity_bits, lemma_address_in_buffer, put_bit, window_bits, zeroed,
};
use crate::laws::lemma_read_after_write;
use crate::order::{BitOrder, ByteOrder, LittleEndian, Lsb0};
use crate::store::{ByteStore, ByteStoreMut};
use std::ops::Range;
use vstd::prelude::*;

verus! {

/// A view of a run of bits in a byte buffer.
#[derive(Debug)]
pub struct BitSlice<S, B = Lsb0, E = LittleEndian> {
    bytes: S,
    start_bit: usize,
    num_bits: usize,
    bit_order: B,
    byte_order: E,
}

impl<S: ByteStore, B: BitOrder, E: ByteOrder> BitSlice<S, B, E> {
    /// The view lies inside its buffer, and every bit of the buffer has an
    /// index that fits the machine word.
    pub open spec fn wf(&self) -> bool {
        &&& capacity_bits(self.bytes()) <= usize::MAX
        &&& self.start() + self.len() <= capacity_bits(self.bytes())
    }

    /// The bytes of the buffer under the view.
    pub closed spec fn bytes(&self) -> Seq<u8> {
        self.bytes.bytes()
    }

    /// Where in the buffer the view begins, in bits.
    pub closed spec fn start(&self) -> nat {
        self.start_bit as nat
    }

    /// Number of bits in the view.
    pub closed spec fn spec_len(&self) -> usize {
        self.num_bits
    }

    /// The bit order of the view.
    pub closed spec fn spec_bit_order(&self) -> B {
        self.bit_order
    }

    /// The byte order of the view.
    pub closed spec fn spec_byte_order(&self) -> E {
        self.byte_order
    }

    /// The whole buffer under the view, read as one run of bits.
    pub open spec fn buffer(&self) -> Seq<bool> {
        buffer_bits(self.bytes(), self.bit_order(), self.byte_order())
    }

    /// Whether `self` is the window from bit `start` up to bit `end` of
    /// `parent`: a view of the same bytes under the same orders.
    pub open spec fn is_slice_of<P: ByteStore>(
        &self,
        parent: &BitSlice<P, B, E>,
        start: int,
        end: int,
    ) -> bool {
        &&& self.bytes() == parent.bytes()
        &&& self.bit_order() == parent.bit_order()
        &&& self.byte_order() == parent.byte_order()
        &&& self.start() == parent.start() + start
        &&& self.len() == end - start
    }

    /// A view of the first `num_bits` bits of `bytes` under the default
    /// orders of `B` and `E`.
    #[inline(always)]
    pub fn new(bytes: S, num_bits: usize) -> (slice: Self) where B: Default, E: Default
        requires
            num_bits <= 8 * bytes.bytes().len() <= usize::MAX,
        ensures
            slice.wf(),
            slice.bytes() == bytes.bytes(),
            slice.start() == 0,
            slice.len() == num_bits,
            call_ensures(B::default, (), slice.bit_order()),
            call_ensures(E::default, (), slice.byte_order()),
    {
        Self::new_with_order(bytes, num_bits, B::default(), E::default())
    }

    /// A view of the first `num_bits` bits of `bytes` under the two orders
    /// given.
    #[inline(always)]
    pub fn new_with_order(bytes: S, num_bits: usize, bit_order: B, endianness: E) -> (slice: Self)
        requires
            num_bits <= 8 * bytes.bytes().len() <= usize::MAX,
        ensures
            slice.wf(),
            slice.bytes() == bytes.bytes(),
            slice.start() == 0,
            slice.len() == num_bits,
            slice.bit_order() == bit_order,
            slice.byte_order() == endianness,
    {
        Self { bytes, start_bit: 0, num_bits, bit_order, byte_order: endianness }
    }

    /// Number of bits in the view.
    #[inline(always)]
    #[verifier::when_used_as_spec(spec_len)]
    pub fn len(&self) -> (n: usize)
        ensures
            n == self.spec_len(),
            self.wf() ==> n == self@.len(),
    {
        self.num_bits
    }

    /// The bit order of the view.
    #[inline(always)]
    #[verifier::when_used_as_spec(spec_bit_order)]
    pub fn bit_order(&self) -> (order: B)
        ensures
            order == self.spec_bit_order(),
    {
        self.bit_order
    }

    /// The byte order of the view.
    #[inline(always)]
    #[verifier::when_used_as_spec(spec_byte_order)]
    pub fn byte_order(&self) -> (order: E)
        ensures
            order == self.spec_byte_order(),
    {
        self.byte_order
    }

    /// The bytes of the buffer under the view.
    #[inline(always)]
    pub fn as_bytes(&self) -> (out: &[u8])
        ensures
            out@ == self.bytes(),
    {
        self.bytes.as_bytes()
    }

    /// Where in its buffer the view begins and where it ends, in bits: its
    /// first bit and the bit just past its last.
    #[inline(always)]
    pub fn bit_range(&self) -> (range: (usize, usize))
        requires
            self.wf(),
        ensures
            range.0 == self.start(),
            range.1 == self.start() + self.len(),
    {
        (self.start_bit, self.start_bit + self.num_bits)
    }

    /// The bit at index `n` of the view.
    pub fn get_bit(&self, n: usize) -> (bit: bool)
        requires
            self.wf(),
            n < self.len(),
        ensures
            bit == self@[n as int],
    {
        proof {
            lemma_address_in_buffer(
                self.bytes.bytes(),
                self.bit_order,
                self.byte_order,
                n + self.start_bit,
            );
        }
        let buffer = self.bytes.as_bytes();
        let (byte, bit) = self.bit_order.find_bit(
            self.byte_order,
            n + self.start_bit,
            buffer.len() * 8,
        );
        (buffer[byte] & (1u8 << bit)) != 0
    }

    /// Whether the view lies inside its buffer and every bit of the buffer
    /// has an index that fits the machine word, tested as the code runs.
    pub fn is_wf(&self) -> (ok: bool)
        ensures
            ok == self.wf(),
    {
        let len: usize = self.bytes.as_bytes().len();
        if len > usize::MAX / 8 {
            return false;
        }
        match self.start_bit.checked_add(self.num_bits) {
            Some(end) => end <= len * 8,
            None => false,
        }
    }

    /// The window of the view from bit `range.start` up to bit `range.end`,
    /// over the same bytes.
    pub fn slice<'a>(&'a self, range: Range<usize>) -> (sub: BitSlice<&'a [u8], B, E>)
        requires
            self.wf(),
            range.start <= range.end <= self.len(),
        ensures
            sub.wf(),
            sub.is_slice_of(self, range.start as int, range.end as int),
            sub@ == self@.subrange(range.start as int, range.end as int),
    {
        self.slice_bounds(Bound::Included(range.start), Bound::Excluded(range.end))
    }

    /// The window of the view between the two bounds, over the same bytes.
    pub fn slice_bounds<'a>(&'a self, start_bound: Bound, end_bound: Bound) -> (sub: BitSlice<
        &'a [u8],
        B,
        E,
    >)
        requires
            self.wf(),
            start_index(start_bound) <= end_index(end_bound, self.len() as int) <= self.len(),
        ensures
            sub.wf(),
            sub.is_slice_of(
                self,
                start_index(start_bound),
                end_index(end_bound, self.len() as int),
            ),
            sub@ == self@.subrange(
                start_index(start_bound),
                end_index(end_bound, self.len() as int),
            ),
    {
        let (start_bit, end_excl_bit) = range_to_bounds(start_bound, end_bound, self.num_bits);
        BitSlice {
            bytes: self.bytes.as_bytes(),
            num_bits: end_excl_bit - start_bit,
            start_bit: self.start_bit + start_bit,
            bit_order: self.bit_order,
            byte_order: self.byte_order,
        }
    }

    /// A cursor at the first bit of the view, which reads the same bytes.
    pub fn iter(&self) -> (iter: BitIter<&[u8], B, E>)
        requires
            self.wf(),
        ensures
            iter.wf(),
            iter.position() == 0,
            iter.inner().is_slice_of(self, 0, self.len() as int),
            iter.inner()@ == self@,
    {
        BitIter::over(
            BitSlice {
                bytes: self.bytes.as_bytes(),
                start_bit: self.start_bit,
                num_bits: self.num_bits,
                bit_order: self.bit_order,
                byte_order: self.byte_order,
            },
        )
    }

    /// A cursor at the first bit of the view, which takes the view over.
    pub fn into_iter(self) -> (iter: BitIter<S, B, E>)
        requires
            self.wf(),
        ensures
            iter.wf(),
            iter.position() == 0,
            iter.inner() == self,
    {
        BitIter::over(self)
    }
}

impl<S: ByteStore, B: BitOrder, E: ByteOrder> View for BitSlice<S, B, E> {
    type V = Seq<bool>;

    open spec fn view(&self) -> Seq<bool> {
        window_bits(
            self.bytes(),
            self.bit_order(),
            self.byte_order(),
            self.start() as int,
            self.len() as int,
        )
    }
}

impl<S: ByteStoreMut, B: BitOrder, E: ByteOrder> BitSlice<S, B, E> {
    /// Sets the bit at index `n` of the view to `value`: the byte that holds
    /// it gets the bit's mask or-ed in or and-ed out, and nothing else
    /// changes.
    pub fn set_bit(&mut self, n: usize, value: bool)
        requires
            old(self).wf(),
            n < old(self).len(),
        ensures
            final(self).wf(),
            final(self)@ == old(self)@.update(n as int, value),
            final(self)@[n as int] == value,
            final(self).buffer() == old(self).buffer().update(old(self).start() + n, value),
            final(self).bytes().len() == old(self).bytes().len(),
            final(self).bytes() == put_bit(
                old(self).bytes(),
                old(self).bit_order(),
                old(self).byte_order(),
                old(self).start() + n,
                value,
            ),
            final(self).start() == old(self).start(),
            final(self).len() == old(self).len(),
            final(self).bit_order() == old(self).bit_order(),
            final(self).byte_order() == old(self).byte_order(),
    {
        proof {
            lemma_address_in_buffer(
                self.bytes.bytes(),
                self.bit_order,
                self.byte_order,
                n + self.start_bit,
            );
        }
        let total: usize = self.bytes.as_bytes().len() * 8;
        let (byte, bit) = self.bit_order.find_bit(self.byte_order, n + self.start_bit, total);
        let current: u8 = self.bytes.as_bytes()[byte];
        if value {
            self.bytes.set_byte(byte, current | (1u8 << bit));
        } else {
            self.bytes.set_byte(byte, current & !(1u8 << bit));
        }
        proof {
            let before = old(self).bytes.bytes();
            lemma_read_after_write(
                before,
                self.bit_order,
                self.byte_order,
                self.start_bit as int,
                self.num_bits as int,
                n as int,
                value,
            );
            lemma_read_after_write(
                before,
                self.bit_order,
                self.byte_order,
                0,
                capacity_bits(before),
                self.start_bit + n,
                value,
            );
            let total = capacity_bits(before);
            assert(window_bits(before, self.bit_order, self.byte_order, 0, total) =~= old(
                self,
            ).buffer());
            assert(window_bits(self.bytes.bytes(), self.bit_order, self.byte_order, 0, total)
                =~= self.buffer());
        }
    }

    /// Sets every byte of the buffer to zero.
    fn clear_buffer(&mut self)
        ensures
            final(self).bytes() == zeroed(old(self).bytes().len()),
            final(self).start() == old(self).start(),
            final(self).len() == old(self).len(),
            final(self).bit_order() == old(self).bit_order(),
            final(self).byte_order() == old(self).byte_order(),
    {
        let len: usize = self.bytes.as_bytes().len();
        let mut i: usize = 0;
        while i < len
            invariant
                i <= len,
                len == self.bytes.bytes().len(),
                forall|j: int| 0 <= j < i ==> self.bytes.bytes()[j] == 0u8,
                self.start_bit == old(self).start_bit,
                self.num_bits == old(self).num_bits,
                self.bit_order == old(self).bit_order,
                self.byte_order == old(self).byte_order,
                len == old(self).bytes.bytes().len(),
            decreases len - i,
        {
            self.bytes.set_byte(i, 0);
            i += 1;
        }
        assert(self.bytes.bytes() =~= zeroed(len as nat));
    }

    /// Lengthens the view by one bit and writes `value` there, as `set_bit`
    /// does, unless the view already ends where its buffer ends. A view of
    /// no bits holds nothing of its buffer: the first push to it clears the
    /// buffer before it writes.
    pub fn push(&mut self, value: bool) -> (pushed: Result<(), Error>)
        requires
            old(self).wf(),
        ensures
            final(self).wf(),
            final(self).start() == old(self).start(),
            final(self).bit_order() == old(self).bit_order(),
            final(self).byte_order() == old(self).byte_order(),
            final(self).bytes().len() == old(self).bytes().len(),
            match pushed {
                Ok(_) => {
                    &&& old(self).start() + old(self).len() < capacity_bits(old(self).bytes())
                    &&& final(self).len() == old(self).len() + 1
                    &&& final(self)@ == old(self)@.push(value)
                    &&& final(self).bytes() == put_bit(
                        if old(self).len() == 0 {
                            zeroed(old(self).bytes().len())
                        } else {
                            old(self).bytes()
                        },
                        old(self).bit_order(),
                        old(self).byte_order(),
                        old(self).start() + old(self).len(),
                        value,
                    )
                },
                Err(error) => {
                    &&& error == Error::CapacityExceeded
                    &&& old(self).start() + old(self).len() == capacity_bits(old(self).bytes())
                    &&& final(self).len() == old(self).len()
                    &&& final(self).bytes() == old(self).bytes()
                },
            },
    {
        let total: usize = self.bytes.as_bytes().len() * 8;
        if self.start_bit + self.num_bits >= total {
            return Err(Error::CapacityExceeded);
        }
        if self.num_bits == 0 {
            self.clear_buffer();
        }
        self.num_bits += 1;
        self.set_bit(self.num_bits - 1, value);
        proof {
            assert(self@ =~= old(self)@.push(value));
        }
        Ok(())
    }
}

} // verus!
