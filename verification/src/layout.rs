use crate::order::{byte_count, BitOrder, ByteOrder};
use vstd::prelude::*;

verus! {

/// Whether bit `bit` of `byte` is set, bit 0 being the least significant.
pub open spec fn bit_is_set(byte: u8, bit: u8) -> bool {
    byte & (1u8 << bit) != 0
}

/// `byte` with its bit `bit` set to `value`.
pub open spec fn with_bit(byte: u8, bit: u8, value: bool) -> u8 {
    if value {
        byte | (1u8 << bit)
    } else {
        byte & !(1u8 << bit)
    }
}

/// Number of bits that the buffer `bytes` holds.
pub open spec fn capacity_bits(bytes: Seq<u8>) -> int {
    8 * (bytes.len() as int)
}

/// Bit `k` of the buffer `bytes`, the bits of the whole buffer being numbered
/// from 0 by the two orders.
pub open spec fn stored_bit<B: BitOrder, E: ByteOrder>(
    bytes: Seq<u8>,
    bit_order: B,
    byte_order: E,
    k: int,
) -> bool {
    bit_is_set(bytes[byte_order.byte_index(k, capacity_bits(bytes))], bit_order.bit_index(k) as u8)
}

/// The buffer `bytes` read as one run of bits under the two orders.
pub open spec fn buffer_bits<B: BitOrder, E: ByteOrder>(
    bytes: Seq<u8>,
    bit_order: B,
    byte_order: E,
) -> Seq<bool> {
    Seq::new(capacity_bits(bytes) as nat, |k: int| stored_bit(bytes, bit_order, byte_order, k))
}

/// The `len` bits of the buffer `bytes` from bit `start` on.
pub open spec fn window_bits<B: BitOrder, E: ByteOrder>(
    bytes: Seq<u8>,
    bit_order: B,
    byte_order: E,
    start: int,
    len: int,
) -> Seq<bool> {
    buffer_bits(bytes, bit_order, byte_order).subrange(start, start + len)
}

/// The buffer `bytes` with its bit `k` set to `value`.
pub open spec fn put_bit<B: BitOrder, E: ByteOrder>(
    bytes: Seq<u8>,
    bit_order: B,
    byte_order: E,
    k: int,
    value: bool,
) -> Seq<u8> {
    let byte = byte_order.byte_index(k, capacity_bits(bytes));
    bytes.update(byte, with_bit(bytes[byte], bit_order.bit_index(k) as u8, value))
}

/// A buffer of `len` bytes, all zero.
pub open spec fn zeroed(len: nat) -> Seq<u8> {
    Seq::new(len, |i: int| 0u8)
}

/// Writing one bit of a byte changes that bit and no other.
pub proof fn lemma_with_bit(byte: u8, bit: u8, value: bool, other: u8)
    requires
        bit < 8,
        other < 8,
    ensures
        bit_is_set(with_bit(byte, bit, value), other) == (if other == bit {
            value
        } else {
            bit_is_set(byte, other)
        }),
{
    assert((byte | (1u8 << bit)) & (1u8 << other) != 0 <==> (other == bit || byte & (1u8 << other)
        != 0)) by (bit_vector)
        requires
            bit < 8,
            other < 8,
    ;
    assert((byte & !(1u8 << bit)) & (1u8 << other) != 0 <==> (other != bit && byte & (1u8 << other)
        != 0)) by (bit_vector)
        requires
            bit < 8,
            other < 8,
    ;
}

/// Every bit of a buffer has its byte inside the buffer and its place inside
/// that byte.
pub proof fn lemma_address_in_buffer<B: BitOrder, E: ByteOrder>(
    bytes: Seq<u8>,
    bit_order: B,
    byte_order: E,
    k: int,
)
    requires
        0 <= k < capacity_bits(bytes),
    ensures
        0 <= byte_order.byte_index(k, capacity_bits(bytes)) < bytes.len(),
        0 <= bit_order.bit_index(k) < 8,
{
    byte_order.byte_index_is_layout(k, k, capacity_bits(bytes));
    bit_order.bit_index_is_layout(k, k);
    assert(byte_count(capacity_bits(bytes)) == bytes.len());
}

/// Writing one bit of a buffer changes that bit and no other, under any pair
/// of orders.
pub proof fn lemma_put_bit<B: BitOrder, E: ByteOrder>(
    bytes: Seq<u8>,
    bit_order: B,
    byte_order: E,
    k: int,
    value: bool,
    j: int,
)
    requires
        0 <= k < capacity_bits(bytes),
        0 <= j < capacity_bits(bytes),
    ensures
        put_bit(bytes, bit_order, byte_order, k, value).len() == bytes.len(),
        stored_bit(put_bit(bytes, bit_order, byte_order, k, value), bit_order, byte_order, j) == (
        if j == k {
            value
        } else {
            stored_bit(bytes, bit_order, byte_order, j)
        }),
{
    let total = capacity_bits(bytes);
    lemma_address_in_buffer(bytes, bit_order, byte_order, k);
    lemma_address_in_buffer(bytes, bit_order, byte_order, j);
    byte_order.byte_index_is_layout(k, j, total);
    bit_order.bit_index_is_layout(k, j);
    let byte = byte_order.byte_index(k, total);
    let bit = bit_order.bit_index(k) as u8;
    if byte_order.byte_index(j, total) == byte {
        lemma_with_bit(bytes[byte], bit, value, bit_order.bit_index(j) as u8);
    }
}

/// Two bytes with the same eight bits are the same byte.
proof fn lemma_byte_by_bits(x: u8, y: u8)
    requires
        forall|bit: u8| bit < 8 ==> bit_is_set(x, bit) == bit_is_set(y, bit),
    ensures
        x == y,
{
    assert(bit_is_set(x, 0) == bit_is_set(y, 0));
    assert(bit_is_set(x, 1) == bit_is_set(y, 1));
    assert(bit_is_set(x, 2) == bit_is_set(y, 2));
    assert(bit_is_set(x, 3) == bit_is_set(y, 3));
    assert(bit_is_set(x, 4) == bit_is_set(y, 4));
    assert(bit_is_set(x, 5) == bit_is_set(y, 5));
    assert(bit_is_set(x, 6) == bit_is_set(y, 6));
    assert(bit_is_set(x, 7) == bit_is_set(y, 7));
    assert(x == y) by (bit_vector)
        requires
            (x & (1u8 << 0u8) != 0) == (y & (1u8 << 0u8) != 0),
            (x & (1u8 << 1u8) != 0) == (y & (1u8 << 1u8) != 0),
            (x & (1u8 << 2u8) != 0) == (y & (1u8 << 2u8) != 0),
            (x & (1u8 << 3u8) != 0) == (y & (1u8 << 3u8) != 0),
            (x & (1u8 << 4u8) != 0) == (y & (1u8 << 4u8) != 0),
            (x & (1u8 << 5u8) != 0) == (y & (1u8 << 5u8) != 0),
            (x & (1u8 << 6u8) != 0) == (y & (1u8 << 6u8) != 0),
            (x & (1u8 << 7u8) != 0) == (y & (1u8 << 7u8) != 0),
    ;
}

/// The bits of a buffer say what its bytes are: two buffers of one length
/// that read as the same run of bits, under one pair of orders, hold the same
/// bytes.
pub proof fn lemma_bits_determine_bytes<B: BitOrder, E: ByteOrder>(
    a: Seq<u8>,
    b: Seq<u8>,
    bit_order: B,
    byte_order: E,
)
    requires
        a.len() == b.len(),
        buffer_bits(a, bit_order, byte_order) == buffer_bits(b, bit_order, byte_order),
    ensures
        a == b,
{
    let total = capacity_bits(a);
    assert forall|m: int| 0 <= m < a.len() implies a[m] == b[m] by {
        let first = byte_order.byte_index_is_onto(m, total);
        assert forall|bit: u8| bit < 8 implies bit_is_set(a[m], bit) == bit_is_set(b[m], bit) by {
            let n = bit_order.bit_index_is_onto(bit as int);
            let k = first + n;
            byte_order.byte_index_is_layout(k, first, total);
            bit_order.bit_index_is_layout(k, n);
            assert(buffer_bits(a, bit_order, byte_order)[k] == stored_bit(
                a,
                bit_order,
                byte_order,
                k,
            ));
            assert(buffer_bits(b, bit_order, byte_order)[k] == stored_bit(
                b,
                bit_order,
                byte_order,
                k,
            ));
        }
        lemma_byte_by_bits(a[m], b[m]);
    }
    assert(a =~= b);
}

/// A buffer of zero bytes holds no set bit, under any pair of orders.
pub proof fn lemma_zeroed_bits<B: BitOrder, E: ByteOrder>(
    len: nat,
    bit_order: B,
    byte_order: E,
    k: int,
)
    requires
        0 <= k < 8 * len,
    ensures
        !stored_bit(zeroed(len), bit_order, byte_order, k),
{
    lemma_address_in_buffer(zeroed(len), bit_order, byte_order, k);
    let bit = bit_order.bit_index(k) as u8;
    assert(0u8 & (1u8 << bit) == 0) by (bit_vector);
}

} // verus!
