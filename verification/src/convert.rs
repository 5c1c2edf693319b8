use crate::bitslice::BitSlice;
use crate::error::ConversionError;
use crate::layout::{lemma_zeroed_bits, zeroed};
use crate::order::{BitOrder, ByteOrder};
use crate::store::{ByteStore, ByteStoreMut};
use vstd::arithmetic::div_mod::{lemma_basic_div, lemma_div_denominator, lemma_div_non_zero};
use vstd::arithmetic::power2::{
    lemma2_to64, lemma_pow2_adds, lemma_pow2_pos, lemma_pow2_strictly_increases,
    lemma_pow2_unfold, pow2,
};
use vstd::array::array_fill_for_copy_types;
use vstd::bits::lemma_u128_shr_is_div;
use vstd::prelude::*;

verus! {

/// What one bit adds to a number at the lowest place: 1 if set, else 0.
pub open spec fn bit_weight(bit: bool) -> nat {
    if bit {
        1
    } else {
        0
    }
}

/// The number that `bits` spell, bit 0 being the least significant.
pub open spec fn bits_value(bits: Seq<bool>) -> nat
    decreases bits.len(),
{
    if bits.len() == 0 {
        0
    } else {
        bit_weight(bits[0]) + 2 * bits_value(bits.skip(1))
    }
}

/// The lowest `width` bits of the number `value`, least significant first.
pub open spec fn bits_of_uint(value: nat, width: nat) -> Seq<bool> {
    Seq::new(width, |i: int| (value / pow2(i as nat)) % 2 == 1)
}

/// The number that `bits` spell, if an unsigned integer of `width` bits can
/// hold it and 128 bits can.
pub open spec fn uint_of_bits(bits: Seq<bool>, width: nat) -> Result<u128, ConversionError> {
    if bits_value(bits) < pow2(width) && bits_value(bits) <= u128::MAX {
        Ok(bits_value(bits) as u128)
    } else {
        Err(ConversionError)
    }
}

/// The number that the bits from index `i` on spell is the bit at `i` plus
/// twice the number that the bits after it spell.
pub proof fn lemma_value_step(bits: Seq<bool>, i: int)
    requires
        0 <= i < bits.len(),
    ensures
        bits_value(bits.skip(i)) == bit_weight(bits[i]) + 2 * bits_value(bits.skip(i + 1)),
{
    assert(bits.skip(i).skip(1) =~= bits.skip(i + 1));
}

/// The bits from any index on spell no more than all the bits do.
pub proof fn lemma_value_ge_suffix(bits: Seq<bool>, i: int)
    requires
        0 <= i <= bits.len(),
    ensures
        bits_value(bits) >= bits_value(bits.skip(i)),
    decreases i,
{
    if i == 0 {
        assert(bits.skip(0) =~= bits);
    } else {
        lemma_value_ge_suffix(bits, i - 1);
        lemma_value_step(bits, i - 1);
    }
}

/// The lowest `width` bits of a number below two to the power of `width`
/// spell that number.
pub proof fn lemma_value_of_uint_bits(value: nat, width: nat)
    requires
        value < pow2(width),
    ensures
        bits_value(bits_of_uint(value, width)) == value,
    decreases width,
{
    let bits = bits_of_uint(value, width);
    lemma2_to64();
    if width > 0 {
        lemma_pow2_unfold(width);
        let rest = bits_of_uint(value / 2, (width - 1) as nat);
        assert forall|i: int| 0 <= i < width - 1 implies bits.skip(1)[i] == #[trigger] rest[i] by {
            lemma_pow2_unfold((i + 1) as nat);
            lemma_pow2_pos(i as nat);
            lemma_div_denominator(value as int, 2, pow2(i as nat) as int);
        }
        assert(bits.skip(1) =~= rest);
        lemma_value_of_uint_bits(value / 2, (width - 1) as nat);
        assert(bits[0] == ((value / pow2(0)) % 2 == 1));
        assert(value / pow2(0) == value) by {
            assert(pow2(0) == 1);
        }
        assert(bits_value(bits) == bit_weight(bits[0]) + 2 * bits_value(bits.skip(1)));
    }
}

/// A number is below two to the power of `width` exactly when shifting it
/// right by `width` places leaves nothing.
proof fn lemma_shr_tests_width(value: u128, width: u128)
    requires
        width < 128,
    ensures
        (value >> width) == 0 <==> value < pow2(width as nat),
{
    lemma_u128_shr_is_div(value, width);
    lemma_pow2_pos(width as nat);
    if value < pow2(width as nat) {
        lemma_basic_div(value as int, pow2(width as nat) as int);
    } else {
        lemma_div_non_zero(value as int, pow2(width as nat) as int);
    }
}

/// Two to the power of 128 is one more than the largest `u128`.
pub(crate) proof fn lemma_pow2_128()
    ensures
        pow2(128) == u128::MAX + 1,
{
    lemma2_to64();
    lemma_pow2_adds(64, 64);
    assert(0x10000000000000000int * 0x10000000000000000int
        == 0x100000000000000000000000000000000int) by (nonlinear_arith);
}

impl<S: ByteStore, B: BitOrder, E: ByteOrder> BitSlice<S, B, E> {
    /// The number that the bits of the view spell, bit 0 being the least
    /// significant, if an unsigned integer of `width` bits can hold it and
    /// 128 bits can.
    pub fn to_uint(&self, width: usize) -> (value: Result<u128, ConversionError>)
        requires
            self.wf(),
        ensures
            value == uint_of_bits(self@, width as nat),
    {
        let mut acc: u128 = 0;
        let mut i: usize = self.len();
        assert(self@.skip(self@.len() as int) =~= Seq::<bool>::empty());
        while i > 0
            invariant
                self.wf(),
                i <= self.len(),
                acc == bits_value(self@.skip(i as int)),
            decreases i,
        {
            i -= 1;
            let bit = self.get_bit(i);
            proof {
                lemma_value_step(self@, i as int);
                lemma_value_ge_suffix(self@, i as int);
            }
            if acc > u128::MAX / 2 {
                return Err(ConversionError);
            }
            acc = 2 * acc + if bit {
                1
            } else {
                0
            };
        }
        proof {
            assert(self@.skip(0) =~= self@);
            lemma_pow2_128();
            if width >= 128 {
                if width > 128 {
                    lemma_pow2_strictly_increases(128, width as nat);
                }
            } else {
                lemma_shr_tests_width(acc, width as u128);
            }
        }
        if width < 128 && (acc >> (width as u128)) != 0 {
            Err(ConversionError)
        } else {
            Ok(acc)
        }
    }
}

/// Writes the lowest bits of `value`, least significant first, over a view
/// whose bits are all unset.
fn write_uint<S: ByteStoreMut, B: BitOrder, E: ByteOrder>(slice: &mut BitSlice<S, B, E>, value: u128)
    requires
        old(slice).wf(),
        value < pow2(old(slice).len() as nat),
        forall|j: int| 0 <= j < old(slice).len() ==> !#[trigger] old(slice)@[j],
    ensures
        final(slice).wf(),
        final(slice).start() == old(slice).start(),
        final(slice).len() == old(slice).len(),
        final(slice).bytes().len() == old(slice).bytes().len(),
        final(slice).bit_order() == old(slice).bit_order(),
        final(slice).byte_order() == old(slice).byte_order(),
        final(slice)@ == bits_of_uint(value as nat, old(slice).len() as nat),
{
    let bits: usize = slice.len();
    proof {
        lemma2_to64();
    }
    let mut rest: u128 = value;
    let mut idx: usize = 0;
    while idx < bits && rest != 0
        invariant
            idx <= bits,
            slice.wf(),
            slice.len() == bits,
            slice.start() == old(slice).start(),
            slice.bytes().len() == old(slice).bytes().len(),
            slice.bit_order() == old(slice).bit_order(),
            slice.byte_order() == old(slice).byte_order(),
            rest as nat == (value as nat) / pow2(idx as nat),
            forall|j: int| 0 <= j < idx ==> #[trigger] slice@[j] == bits_of_uint(
                value as nat,
                bits as nat,
            )[j],
            forall|j: int| idx <= j < bits ==> !#[trigger] slice@[j],
        decreases bits - idx,
    {
        proof {
            lemma_pow2_unfold((idx + 1) as nat);
            lemma_pow2_pos(idx as nat);
            lemma_div_denominator(value as int, pow2(idx as nat) as int, 2);
            assert((rest & 1) == 1 <==> rest % 2 == 1) by (bit_vector);
            assert(rest >> 1 == rest / 2) by (bit_vector);
        }
        slice.set_bit(idx, (rest & 1) == 1);
        rest >>= 1;
        idx += 1;
        assert(rest as nat == (value as nat) / pow2(idx as nat));
    }
    proof {
        assert forall|j: int| 0 <= j < bits implies #[trigger] slice@[j] == bits_of_uint(
            value as nat,
            bits as nat,
        )[j] by {
            if j >= idx {
                lemma_pow2_pos(idx as nat);
                lemma_pow2_pos(j as nat);
                if value >= pow2(idx as nat) {
                    lemma_div_non_zero(value as int, pow2(idx as nat) as int);
                }
                if j > idx {
                    lemma_pow2_strictly_increases(idx as nat, j as nat);
                }
                lemma_basic_div(value as int, pow2(j as nat) as int);
            }
        }
        assert(slice@ =~= bits_of_uint(value as nat, bits as nat));
    }
}

/// A view of `N` fresh bytes that holds the lowest bits of `value`, least
/// significant first, under the default orders of `B` and `E`.
fn from_uint<const N: usize, B: BitOrder + Default, E: ByteOrder + Default>(value: u128) -> (slice:
    BitSlice<[u8; N], B, E>)
    requires
        8 * N <= usize::MAX,
        value < pow2((8 * N) as nat),
    ensures
        slice.wf(),
        slice.start() == 0,
        slice.len() == 8 * N,
        slice.bytes().len() == N,
        slice@ == bits_of_uint(value as nat, (8 * N) as nat),
        call_ensures(B::default, (), slice.bit_order()),
        call_ensures(E::default, (), slice.byte_order()),
{
    let arr: [u8; N] = array_fill_for_copy_types(0u8);
    let mut slice: BitSlice<[u8; N], B, E> = BitSlice::new(arr, 8 * N);
    proof {
        assert(slice.bytes() =~= zeroed(N as nat));
        assert forall|j: int| 0 <= j < 8 * N implies !#[trigger] slice@[j] by {
            lemma_zeroed_bits(N as nat, slice.bit_order(), slice.byte_order(), j);
        }
    }
    write_uint(&mut slice, value);
    slice
}

impl<B: BitOrder + Default, E: ByteOrder + Default> From<usize> for BitSlice<Vec<u8>, B, E> {
    /// A view of as many fresh bytes as a `usize` has, which holds the bits
    /// of `value`, least significant first.
    fn from(value: usize) -> (slice: Self)
        ensures
            slice.wf(),
            slice.start() == 0,
            slice.len() == usize::BITS,
            slice.bytes().len() == usize::BITS / 8,
            slice@ == bits_of_uint(value as nat, usize::BITS as nat),
            call_ensures(B::default, (), slice.bit_order()),
            call_ensures(E::default, (), slice.byte_order()),
    {
        let bits: usize = usize::BITS as usize;
        let buffer: Vec<u8> = vec![0u8; bits / 8];
        let mut slice: BitSlice<Vec<u8>, B, E> = BitSlice::new(buffer, bits);
        proof {
            lemma_uint_widths();
            assert(slice.bytes() =~= zeroed((bits / 8) as nat));
            assert forall|j: int| 0 <= j < bits implies !#[trigger] slice@[j] by {
                lemma_zeroed_bits((bits / 8) as nat, slice.bit_order(), slice.byte_order(), j);
            }
        }
        write_uint(&mut slice, value as u128);
        slice
    }
}

impl<B: BitOrder + Default, E: ByteOrder + Default> vstd::std_specs::convert::FromSpecImpl<usize> for BitSlice<Vec<u8>, B, E> {
    open spec fn obeys_from_spec() -> bool {
        false
    }

    open spec fn from_spec(value: usize) -> Self {
        arbitrary()
    }
}

/// The bytes of `bytes` whose bits all have an index that fits a `usize`: all
/// of them, unless there are more than `usize::MAX / 8`.
pub open spec fn addressable(bytes: Seq<u8>) -> Seq<u8> {
    if bytes.len() > usize::MAX / 8 {
        bytes.take((usize::MAX / 8) as int)
    } else {
        bytes
    }
}

impl<'a, B: BitOrder + Default, E: ByteOrder + Default> From<&'a [u8]> for BitSlice<&'a [u8], B, E> {
    /// A view of all the bits of `bytes` that have an index, under the
    /// default orders of `B` and `E`.
    #[inline(always)]
    fn from(bytes: &'a [u8]) -> (slice: Self)
        ensures
            slice.wf(),
            slice.start() == 0,
            slice.bytes() == addressable(bytes@),
            slice.len() == 8 * addressable(bytes@).len(),
            call_ensures(B::default, (), slice.bit_order()),
            call_ensures(E::default, (), slice.byte_order()),
    {
        let limit: usize = usize::MAX / 8;
        let bytes = if bytes.len() > limit {
            &bytes[0..limit]
        } else {
            bytes
        };
        let len: usize = bytes.len() * 8;
        Self::new(bytes, len)
    }
}

impl<'a, B: BitOrder + Default, E: ByteOrder + Default> vstd::std_specs::convert::FromSpecImpl<&'a [u8]> for BitSlice<&'a [u8], B, E> {
    open spec fn obeys_from_spec() -> bool {
        false
    }

    open spec fn from_spec(bytes: &'a [u8]) -> Self {
        arbitrary()
    }
}

impl<'a, B: BitOrder + Default, E: ByteOrder + Default> From<&'a mut [u8]> for BitSlice<&'a mut [u8], B, E> {
    /// A view of all the bits of `bytes` that have an index, under the
    /// default orders of `B` and `E`, through which they can be written.
    #[inline(always)]
    fn from(bytes: &'a mut [u8]) -> (slice: Self)
        ensures
            slice.wf(),
            slice.start() == 0,
            slice.bytes() == addressable(old(bytes)@),
            slice.len() == 8 * addressable(old(bytes)@).len(),
            call_ensures(B::default, (), slice.bit_order()),
            call_ensures(E::default, (), slice.byte_order()),
    {
        let limit: usize = usize::MAX / 8;
        let bytes = if bytes.len() > limit {
            bytes.split_at_mut(limit).0
        } else {
            bytes
        };
        let len: usize = bytes.len() * 8;
        Self::new(bytes, len)
    }
}

impl<'a, B: BitOrder + Default, E: ByteOrder + Default> vstd::std_specs::convert::FromSpecImpl<&'a mut [u8]> for BitSlice<&'a mut [u8], B, E> {
    open spec fn obeys_from_spec() -> bool {
        false
    }

    open spec fn from_spec(bytes: &'a mut [u8]) -> Self {
        arbitrary()
    }
}

/// The widths of the unsigned integers, as powers of two.
proof fn lemma_uint_widths()
    ensures
        pow2(8) == u8::MAX + 1,
        pow2(16) == u16::MAX + 1,
        pow2(32) == u32::MAX + 1,
        pow2(64) == u64::MAX + 1,
        pow2(128) == u128::MAX + 1,
        pow2(usize::BITS as nat) == usize::MAX + 1,
{
    lemma2_to64();
    lemma_pow2_128();
}

impl<B: BitOrder + Default, E: ByteOrder + Default> From<u8> for BitSlice<[u8; 1], B, E> {
    /// A view of one fresh byte that holds the 8 bits of `value`, least
    /// significant first.
    fn from(value: u8) -> (slice: Self)
        ensures
            slice.wf(),
            slice.start() == 0,
            slice.len() == 8,
            slice.bytes().len() == 1,
            slice@ == bits_of_uint(value as nat, 8),
            call_ensures(B::default, (), slice.bit_order()),
            call_ensures(E::default, (), slice.byte_order()),
    {
        proof {
            lemma_uint_widths();
        }
        from_uint(value as u128)
    }
}

impl<B: BitOrder + Default, E: ByteOrder + Default> vstd::std_specs::convert::FromSpecImpl<u8> for BitSlice<[u8; 1], B, E> {
    open spec fn obeys_from_spec() -> bool {
        false
    }

    open spec fn from_spec(value: u8) -> Self {
        arbitrary()
    }
}

impl<B: BitOrder + Default, E: ByteOrder + Default> From<u16> for BitSlice<[u8; 2], B, E> {
    /// A view of two fresh bytes that holds the 16 bits of `value`, least
    /// significant first.
    fn from(value: u16) -> (slice: Self)
        ensures
            slice.wf(),
            slice.start() == 0,
            slice.len() == 16,
            slice.bytes().len() == 2,
            slice@ == bits_of_uint(value as nat, 16),
            call_ensures(B::default, (), slice.bit_order()),
            call_ensures(E::default, (), slice.byte_order()),
    {
        proof {
            lemma_uint_widths();
        }
        from_uint(value as u128)
    }
}

impl<B: BitOrder + Default, E: ByteOrder + Default> vstd::std_specs::convert::FromSpecImpl<u16> for BitSlice<[u8; 2], B, E> {
    open spec fn obeys_from_spec() -> bool {
        false
    }

    open spec fn from_spec(value: u16) -> Self {
        arbitrary()
    }
}

impl<B: BitOrder + Default, E: ByteOrder + Default> From<u32> for BitSlice<[u8; 4], B, E> {
    /// A view of four fresh bytes that holds the 32 bits of `value`, least
    /// significant first.
    fn from(value: u32) -> (slice: Self)
        ensures
            slice.wf(),
            slice.start() == 0,
            slice.len() == 32,
            slice.bytes().len() == 4,
            slice@ == bits_of_uint(value as nat, 32),
            call_ensures(B::default, (), slice.bit_order()),
            call_ensures(E::default, (), slice.byte_order()),
    {
        proof {
            lemma_uint_widths();
        }
        from_uint(value as u128)
    }
}

impl<B: BitOrder + Default, E: ByteOrder + Default> vstd::std_specs::convert::FromSpecImpl<u32> for BitSlice<[u8; 4], B, E> {
    open spec fn obeys_from_spec() -> bool {
        false
    }

    open spec fn from_spec(value: u32) -> Self {
        arbitrary()
    }
}

impl<B: BitOrder + Default, E: ByteOrder + Default> From<u64> for BitSlice<[u8; 8], B, E> {
    /// A view of eight fresh bytes that holds the 64 bits of `value`, least
    /// significant first.
    fn from(value: u64) -> (slice: Self)
        ensures
            slice.wf(),
            slice.start() == 0,
            slice.len() == 64,
            slice.bytes().len() == 8,
            slice@ == bits_of_uint(value as nat, 64),
            call_ensures(B::default, (), slice.bit_order()),
            call_ensures(E::default, (), slice.byte_order()),
    {
        proof {
            lemma_uint_widths();
        }
        from_uint(value as u128)
    }
}

impl<B: BitOrder + Default, E: ByteOrder + Default> vstd::std_specs::convert::FromSpecImpl<u64> for BitSlice<[u8; 8], B, E> {
    open spec fn obeys_from_spec() -> bool {
        false
    }

    open spec fn from_spec(value: u64) -> Self {
        arbitrary()
    }
}

impl<B: BitOrder + Default, E: ByteOrder + Default> From<u128> for BitSlice<[u8; 16], B, E> {
    /// A view of sixteen fresh bytes that holds the 128 bits of `value`, least
    /// significant first.
    fn from(value: u128) -> (slice: Self)
        ensures
            slice.wf(),
            slice.start() == 0,
            slice.len() == 128,
            slice.bytes().len() == 16,
            slice@ == bits_of_uint(value as nat, 128),
            call_ensures(B::default, (), slice.bit_order()),
            call_ensures(E::default, (), slice.byte_order()),
    {
        proof {
            lemma_uint_widths();
        }
        from_uint(value as u128)
    }
}

impl<B: BitOrder + Default, E: ByteOrder + Default> vstd::std_specs::convert::FromSpecImpl<u128> for BitSlice<[u8; 16], B, E> {
    open spec fn obeys_from_spec() -> bool {
        false
    }

    open spec fn from_spec(value: u128) -> Self {
        arbitrary()
    }
}

impl<S: ByteStore, B: BitOrder, E: ByteOrder> TryFrom<BitSlice<S, B, E>> for u8 {
    type Error = ConversionError;

    /// The number that the bits of `value` spell, bit 0 being the least
    /// significant, if `u8` can hold it.
    #[inline(always)]
    fn try_from(value: BitSlice<S, B, E>) -> (out: Result<Self, Self::Error>) {
        proof {
            lemma_uint_widths();
        }
        if !value.is_wf() {
            return Err(ConversionError);
        }
        match value.to_uint(8) {
            Ok(v) => Ok(v as u8),
            Err(error) => Err(error),
        }
    }
}

impl<S: ByteStore, B: BitOrder, E: ByteOrder> vstd::std_specs::convert::TryFromSpecImpl<BitSlice<S, B, E>> for u8 {
    open spec fn obeys_try_from_spec() -> bool {
        true
    }

    open spec fn try_from_spec(value: BitSlice<S, B, E>) -> Result<Self, Self::Error> {
        if value.wf() {
            match uint_of_bits(value@, 8) {
                Ok(v) => Ok(v as u8),
                Err(error) => Err(error),
            }
        } else {
            Err(ConversionError)
        }
    }
}

impl<S: ByteStore, B: BitOrder, E: ByteOrder> TryFrom<BitSlice<S, B, E>> for u16 {
    type Error = ConversionError;

    /// The number that the bits of `value` spell, bit 0 being the least
    /// significant, if `u16` can hold it.
    #[inline(always)]
    fn try_from(value: BitSlice<S, B, E>) -> (out: Result<Self, Self::Error>) {
        proof {
            lemma_uint_widths();
        }
        if !value.is_wf() {
            return Err(ConversionError);
        }
        match value.to_uint(16) {
            Ok(v) => Ok(v as u16),
            Err(error) => Err(error),
        }
    }
}

impl<S: ByteStore, B: BitOrder, E: ByteOrder> vstd::std_specs::convert::TryFromSpecImpl<BitSlice<S, B, E>> for u16 {
    open spec fn obeys_try_from_spec() -> bool {
        true
    }

    open spec fn try_from_spec(value: BitSlice<S, B, E>) -> Result<Self, Self::Error> {
        if value.wf() {
            match uint_of_bits(value@, 16) {
                Ok(v) => Ok(v as u16),
                Err(error) => Err(error),
            }
        } else {
            Err(ConversionError)
        }
    }
}

impl<S: ByteStore, B: BitOrder, E: ByteOrder> TryFrom<BitSlice<S, B, E>> for u32 {
    type Error = ConversionError;

    /// The number that the bits of `value` spell, bit 0 being the least
    /// significant, if `u32` can hold it.
    #[inline(always)]
    fn try_from(value: BitSlice<S, B, E>) -> (out: Result<Self, Self::Error>) {
        proof {
            lemma_uint_widths();
        }
        if !value.is_wf() {
            return Err(ConversionError);
        }
        match value.to_uint(32) {
            Ok(v) => Ok(v as u32),
            Err(error) => Err(error),
        }
    }
}

impl<S: ByteStore, B: BitOrder, E: ByteOrder> vstd::std_specs::convert::TryFromSpecImpl<BitSlice<S, B, E>> for u32 {
    open spec fn obeys_try_from_spec() -> bool {
        true
    }

    open spec fn try_from_spec(value: BitSlice<S, B, E>) -> Result<Self, Self::Error> {
        if value.wf() {
            match uint_of_bits(value@, 32) {
                Ok(v) => Ok(v as u32),
                Err(error) => Err(error),
            }
        } else {
            Err(ConversionError)
        }
    }
}

impl<S: ByteStore, B: BitOrder, E: ByteOrder> TryFrom<BitSlice<S, B, E>> for u64 {
    type Error = ConversionError;

    /// The number that the bits of `value` spell, bit 0 being the least
    /// significant, if `u64` can hold it.
    #[inline(always)]
    fn try_from(value: BitSlice<S, B, E>) -> (out: Result<Self, Self::Error>) {
        proof {
            lemma_uint_widths();
        }
        if !value.is_wf() {
            return Err(ConversionError);
        }
        match value.to_uint(64) {
            Ok(v) => Ok(v as u64),
            Err(error) => Err(error),
        }
    }
}

impl<S: ByteStore, B: BitOrder, E: ByteOrder> vstd::std_specs::convert::TryFromSpecImpl<BitSlice<S, B, E>> for u64 {
    open spec fn obeys_try_from_spec() -> bool {
        true
    }

    open spec fn try_from_spec(value: BitSlice<S, B, E>) -> Result<Self, Self::Error> {
        if value.wf() {
            match uint_of_bits(value@, 64) {
                Ok(v) => Ok(v as u64),
                Err(error) => Err(error),
            }
        } else {
            Err(ConversionError)
        }
    }
}

impl<S: ByteStore, B: BitOrder, E: ByteOrder> TryFrom<BitSlice<S, B, E>> for u128 {
    type Error = ConversionError;

    /// The number that the bits of `value` spell, bit 0 being the least
    /// significant, if `u128` can hold it.
    #[inline(always)]
    fn try_from(value: BitSlice<S, B, E>) -> (out: Result<Self, Self::Error>) {
        proof {
            lemma_uint_widths();
        }
        if !value.is_wf() {
            return Err(ConversionError);
        }
        match value.to_uint(128) {
            Ok(v) => Ok(v as u128),
            Err(error) => Err(error),
        }
    }
}

impl<S: ByteStore, B: BitOrder, E: ByteOrder> vstd::std_specs::convert::TryFromSpecImpl<BitSlice<S, B, E>> for u128 {
    open spec fn obeys_try_from_spec() -> bool {
        true
    }

    open spec fn try_from_spec(value: BitSlice<S, B, E>) -> Result<Self, Self::Error> {
        if value.wf() {
            match uint_of_bits(value@, 128) {
                Ok(v) => Ok(v as u128),
                Err(error) => Err(error),
            }
        } else {
            Err(ConversionError)
        }
    }
}

impl<S: ByteStore, B: BitOrder, E: ByteOrder> TryFrom<BitSlice<S, B, E>> for usize {
    type Error = ConversionError;

    /// The number that the bits of `value` spell, bit 0 being the least
    /// significant, if `usize` can hold it.
    #[inline(always)]
    fn try_from(value: BitSlice<S, B, E>) -> (out: Result<Self, Self::Error>) {
        proof {
            lemma_uint_widths();
        }
        if !value.is_wf() {
            return Err(ConversionError);
        }
        match value.to_uint(usize::BITS as usize) {
            Ok(v) => Ok(v as usize),
            Err(error) => Err(error),
        }
    }
}

impl<S: ByteStore, B: BitOrder, E: ByteOrder> vstd::std_specs::convert::TryFromSpecImpl<BitSlice<S, B, E>> for usize {
    open spec fn obeys_try_from_spec() -> bool {
        true
    }

    open spec fn try_from_spec(value: BitSlice<S, B, E>) -> Result<Self, Self::Error> {
        if value.wf() {
            match uint_of_bits(value@, usize::BITS as nat) {
                Ok(v) => Ok(v as usize),
                Err(error) => Err(error),
            }
        } else {
            Err(ConversionError)
        }
    }
}

} // verus!
