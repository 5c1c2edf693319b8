use crate::bitslice::BitSlice;
use crate::convert::{bits_of_uint, lemma_pow2_128, lemma_value_of_uint_bits, uint_of_bits};
use crate::error::ConversionError;
use crate::iter::{item_at, lemma_position_after, next_position, position_after, BitIter};
use crate::layout::{capacity_bits, lemma_put_bit, put_bit, window_bits};
use crate::order::{BitOrder, ByteOrder};
use crate::store::ByteStore;
use vstd::arithmetic::power2::{lemma_pow2_strictly_increases, pow2};
use vstd::prelude::*;

verus! {

/// Read after write: in a window of a buffer whose bit at the place of the
/// window's bit `n` was just written, that bit reads as the value written,
/// and every other bit of the window as before.
pub proof fn lemma_read_after_write<B: BitOrder, E: ByteOrder>(
    bytes: Seq<u8>,
    bit_order: B,
    byte_order: E,
    start: int,
    len: int,
    n: int,
    value: bool,
)
    requires
        0 <= start,
        0 <= n < len,
        start + len <= capacity_bits(bytes),
    ensures
        ({
            let written = put_bit(bytes, bit_order, byte_order, start + n, value);
            let after = window_bits(written, bit_order, byte_order, start, len);
            let before = window_bits(bytes, bit_order, byte_order, start, len);
            &&& after[n] == value
            &&& after == before.update(n, value)
        }),
{
    let written = put_bit(bytes, bit_order, byte_order, start + n, value);
    let after = window_bits(written, bit_order, byte_order, start, len);
    let before = window_bits(bytes, bit_order, byte_order, start, len);
    lemma_put_bit(bytes, bit_order, byte_order, start + n, value, start + n);
    assert forall|i: int| 0 <= i < len implies #[trigger] after[i] == before.update(n, value)[i] by {
        lemma_put_bit(bytes, bit_order, byte_order, start + n, value, start + i);
    }
    assert(after =~= before.update(n, value));
}

/// Round trip: the lowest `width` bits of an unsigned integer of `width`
/// bits spell that integer again.
pub proof fn lemma_uint_round_trip(value: nat, width: nat)
    requires
        width <= 128,
        value < pow2(width),
    ensures
        uint_of_bits(bits_of_uint(value, width), width) == Ok::<u128, ConversionError>(
            value as u128,
        ),
{
    lemma_value_of_uint_bits(value, width);
    lemma_pow2_128();
    if width < 128 {
        lemma_pow2_strictly_increases(width, 128);
    }
}

/// Slicing a slice: the window from `c` to `d` of the window from `a` to `b`
/// of a view is the window from `a + c` to `a + d` of that view, bit for bit
/// and in where it lies in the buffer.
pub proof fn lemma_slice_of_slice<
    S: ByteStore,
    S1: ByteStore,
    S2: ByteStore,
    S3: ByteStore,
    B: BitOrder,
    E: ByteOrder,
>(
    view: BitSlice<S, B, E>,
    outer: BitSlice<S1, B, E>,
    inner: BitSlice<S2, B, E>,
    direct: BitSlice<S3, B, E>,
    a: int,
    b: int,
    c: int,
    d: int,
)
    requires
        view.wf(),
        0 <= a <= b <= view.len(),
        0 <= c <= d <= b - a,
        outer.is_slice_of(&view, a, b),
        inner.is_slice_of(&outer, c, d),
        direct.is_slice_of(&view, a + c, a + d),
    ensures
        inner.wf(),
        direct.wf(),
        inner.is_slice_of(&view, a + c, a + d),
        inner@ == direct@,
        inner@ == view@.subrange(a, b).subrange(c, d),
        direct@ == view@.subrange(a + c, a + d),
{
    assert(inner@ =~= direct@);
    assert(inner@ =~= view@.subrange(a, b).subrange(c, d));
    assert(direct@ =~= view@.subrange(a + c, a + d));
}

/// Exhaustion: once a cursor has made as many steps as it had bits to come,
/// or more, it stands at the end of its view, where it yields nothing, has
/// nothing to come, and stays.
pub proof fn lemma_exhaustion<S: ByteStore, B: BitOrder, E: ByteOrder>(
    iter: BitIter<S, B, E>,
    steps: nat,
)
    requires
        iter.wf(),
        steps >= iter.remaining().len(),
    ensures
        ({
            let len = iter.inner()@.len();
            let end = position_after(iter.position(), len, steps);
            &&& end == len
            &&& item_at(iter.inner()@, end) is None
            &&& iter.inner()@.skip(end as int).len() == 0
            &&& next_position(end, len) == end
        }),
{
    lemma_position_after(iter.position(), iter.inner()@.len(), steps);
}

} // verus!
