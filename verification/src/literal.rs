use crate::bitslice::BitSlice;
use crate::layout::{capacity_bits, lemma_zeroed_bits, zeroed};
use crate::order::{byte_count, BitOrder, ByteOrder};
use vstd::prelude::*;

verus! {

/// The bits that a list of numbers stands for: each is set where the number
/// is not zero.
pub open spec fn literal_bits(values: Seq<u8>) -> Seq<bool> {
    Seq::new(values.len(), |i: int| values[i] != 0)
}

/// The run of `len` bits that begins with `bits` and goes on unset.
pub open spec fn padded(bits: Seq<bool>, len: int) -> Seq<bool> {
    Seq::new(len as nat, |k: int| k < bits.len() && bits[k])
}

/// A view that holds the bits that `values` stands for, in order, over a
/// fresh buffer of just the bytes that they need, under the default orders of
/// `B` and `E`.
pub fn bits<B: BitOrder + Default, E: ByteOrder + Default>(values: &[u8]) -> (slice: BitSlice<
    Vec<u8>,
    B,
    E,
>)
    requires
        values@.len() + 7 <= usize::MAX,
    ensures
        slice.wf(),
        slice.start() == 0,
        slice.len() == values@.len(),
        slice.bytes().len() == byte_count(values@.len() as int),
        slice@ == literal_bits(values@),
        slice.buffer() == padded(literal_bits(values@), capacity_bits(slice.bytes())),
        call_ensures(B::default, (), slice.bit_order()),
        call_ensures(E::default, (), slice.byte_order()),
{
    let count: usize = values.len();
    let buffer: Vec<u8> = vec![0u8; (count + 7) / 8];
    let mut slice: BitSlice<Vec<u8>, B, E> = BitSlice::new(buffer, count);
    let ghost bit_order = slice.bit_order();
    let ghost byte_order = slice.byte_order();
    proof {
        assert(slice.bytes() =~= zeroed(slice.bytes().len()));
        assert forall|k: int| 0 <= k < capacity_bits(slice.bytes()) implies !#[trigger] slice.buffer()[k] by {
            lemma_zeroed_bits(slice.bytes().len(), bit_order, byte_order, k);
        }
    }
    let mut index: usize = 0;
    while index < count
        invariant
            index <= count,
            count == values@.len(),
            slice.wf(),
            slice.start() == 0,
            slice.len() == count,
            slice.bytes().len() == byte_count(count as int),
            slice.bit_order() == bit_order,
            slice.byte_order() == byte_order,
            forall|j: int| 0 <= j < index ==> #[trigger] slice.buffer()[j] == (values@[j] != 0),
            forall|k: int|
                index <= k < capacity_bits(slice.bytes()) ==> !#[trigger] slice.buffer()[k],
        decreases count - index,
    {
        slice.set_bit(index, values[index] != 0);
        index += 1;
    }
    assert forall|j: int| 0 <= j < count implies slice@[j] == literal_bits(values@)[j] by {
        assert(slice@[j] == slice.buffer()[j]);
    }
    assert(slice@ =~= literal_bits(values@));
    assert(slice.buffer() =~= padded(literal_bits(values@), capacity_bits(slice.bytes())));
    slice
}

} // verus!
