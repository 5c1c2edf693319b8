use crate::sealed::Sealed;
use vstd::prelude::*;

verus! {

/// Number of bytes needed to hold `num_bits` bits.
pub open spec fn byte_count(num_bits: int) -> int {
    (num_bits + 7) / 8
}

/// `u16::to_le` of the standard library hands its argument back as it is on
/// a little-endian machine, and with its two bytes swapped on a big-endian
/// one.
pub assume_specification[ u16::to_le ](value: u16) -> (out: u16)
    ensures
        out == value || out == (value % 256) * 256 + value / 256,
;

/// Whether the machine lays integers out low byte first.
fn machine_is_little_endian() -> bool {
    1u16.to_le() == 1
}

/// A byte order: which byte, among those that a sequence of bits spans,
/// holds a given bit.
pub trait ByteOrder: Copy + Sealed {
    /// Index of the byte that holds bit `bit_no` of `num_bits` bits.
    spec fn byte_index(self, bit_no: int, num_bits: int) -> int;

    /// A byte order sends every bit to one of the spanned bytes, and two bits
    /// to the same byte exactly when they lie in the same group of eight.
    proof fn byte_index_is_layout(self, a: int, b: int, num_bits: int)
        requires
            0 <= a < num_bits,
            0 <= b < num_bits,
        ensures
            0 <= self.byte_index(a, num_bits) < byte_count(num_bits),
            self.byte_index(a, num_bits) == self.byte_index(b, num_bits) <==> a / 8 == b / 8,
    ;

    /// A byte order leaves none of the spanned bytes out: in each of them
    /// lies the first bit of some group of eight, which the law hands back.
    proof fn byte_index_is_onto(self, byte: int, num_bits: int) -> (bit_no: int)
        requires
            0 <= byte < byte_count(num_bits),
        ensures
            0 <= bit_no < num_bits,
            bit_no % 8 == 0,
            self.byte_index(bit_no, num_bits) == byte,
    ;

    /// Finds the byte that holds bit `bit_no` of `num_bits` bits.
    fn find_byte(self, bit_no: usize, num_bits: usize) -> (byte: usize)
        requires
            bit_no < num_bits,
        ensures
            byte == self.byte_index(bit_no as int, num_bits as int),
    ;

    /// Whether this is the order in which a little-endian machine (if
    /// `little_endian` holds) or a big-endian machine lays integers out.
    spec fn is_order_of(self, little_endian: bool) -> bool;

    /// Whether this is the order in which a machine lays integers out that
    /// is little-endian (if `little_endian` holds) or big-endian.
    fn is_native_on(self, little_endian: bool) -> (native: bool)
        ensures
            native == self.is_order_of(little_endian),
    ;

    /// Whether this is the order in which the machine that runs the code
    /// lays integers out.
    fn is_native(self) -> bool;
}

/// Little-endian byte order: bytes are scanned from the lowest address up,
/// so that bit 0 lies in the first byte.
#[derive(Debug, Clone, Copy, PartialEq, Eq, Structural)]
pub struct LittleEndian;

/// Big-endian byte order: bytes are scanned from the highest address down,
/// so that bit 0 lies in the last of the spanned bytes.
#[derive(Debug, Clone, Copy, PartialEq, Eq, Structural)]
pub struct BigEndian;

/// A byte order chosen at run time.
#[derive(Debug, Clone, Copy, PartialEq, Eq, Structural)]
pub enum DynEndian {
    /// Bytes are scanned from the lowest address up.
    LittleEndian,
    /// Bytes are scanned from the highest address down.
    BigEndian,
}

impl Sealed for LittleEndian {

}

impl Sealed for BigEndian {

}

impl Sealed for DynEndian {

}

impl Default for LittleEndian {
    fn default() -> (order: Self)
        ensures
            order == LittleEndian,
    {
        LittleEndian
    }
}

impl Default for BigEndian {
    fn default() -> (order: Self)
        ensures
            order == BigEndian,
    {
        BigEndian
    }
}

impl ByteOrder for BigEndian {
    open spec fn byte_index(self, bit_no: int, num_bits: int) -> int {
        byte_count(num_bits) - bit_no / 8 - 1
    }

    proof fn byte_index_is_layout(self, a: int, b: int, num_bits: int) {
    }

    proof fn byte_index_is_onto(self, byte: int, num_bits: int) -> (bit_no: int) {
        8 * (byte_count(num_bits) - byte - 1)
    }

    #[inline(always)]
    fn find_byte(self, bit_no: usize, num_bits: usize) -> (byte: usize) {
        let num_bytes: usize = (num_bits - 1) / 8 + 1;
        num_bytes - bit_no / 8 - 1
    }

    open spec fn is_order_of(self, little_endian: bool) -> bool {
        !little_endian
    }

    fn is_native_on(self, little_endian: bool) -> (native: bool) {
        !little_endian
    }

    fn is_native(self) -> bool {
        self.is_native_on(machine_is_little_endian())
    }
}

impl ByteOrder for LittleEndian {
    open spec fn byte_index(self, bit_no: int, num_bits: int) -> int {
        bit_no / 8
    }

    proof fn byte_index_is_layout(self, a: int, b: int, num_bits: int) {
    }

    proof fn byte_index_is_onto(self, byte: int, num_bits: int) -> (bit_no: int) {
        8 * byte
    }

    #[inline(always)]
    fn find_byte(self, bit_no: usize, num_bits: usize) -> (byte: usize) {
        bit_no / 8
    }

    open spec fn is_order_of(self, little_endian: bool) -> bool {
        little_endian
    }

    fn is_native_on(self, little_endian: bool) -> (native: bool) {
        little_endian
    }

    fn is_native(self) -> bool {
        self.is_native_on(machine_is_little_endian())
    }
}

impl ByteOrder for DynEndian {
    open spec fn byte_index(self, bit_no: int, num_bits: int) -> int {
        match self {
            DynEndian::BigEndian => BigEndian.byte_index(bit_no, num_bits),
            DynEndian::LittleEndian => LittleEndian.byte_index(bit_no, num_bits),
        }
    }

    proof fn byte_index_is_layout(self, a: int, b: int, num_bits: int) {
        match self {
            DynEndian::BigEndian => BigEndian.byte_index_is_layout(a, b, num_bits),
            DynEndian::LittleEndian => LittleEndian.byte_index_is_layout(a, b, num_bits),
        }
    }

    proof fn byte_index_is_onto(self, byte: int, num_bits: int) -> (bit_no: int) {
        match self {
            DynEndian::BigEndian => BigEndian.byte_index_is_onto(byte, num_bits),
            DynEndian::LittleEndian => LittleEndian.byte_index_is_onto(byte, num_bits),
        }
    }

    #[inline(always)]
    fn find_byte(self, bit_no: usize, num_bits: usize) -> (byte: usize) {
        match self {
            DynEndian::BigEndian => BigEndian.find_byte(bit_no, num_bits),
            DynEndian::LittleEndian => LittleEndian.find_byte(bit_no, num_bits),
        }
    }

    open spec fn is_order_of(self, little_endian: bool) -> bool {
        match self {
            DynEndian::BigEndian => BigEndian.is_order_of(little_endian),
            DynEndian::LittleEndian => LittleEndian.is_order_of(little_endian),
        }
    }

    fn is_native_on(self, little_endian: bool) -> (native: bool) {
        match self {
            DynEndian::BigEndian => BigEndian.is_native_on(little_endian),
            DynEndian::LittleEndian => LittleEndian.is_native_on(little_endian),
        }
    }

    fn is_native(self) -> bool {
        self.is_native_on(machine_is_little_endian())
    }
}

/// A bit order: which position inside its byte a given bit takes.
pub trait BitOrder: Copy + Sealed {
    /// Position inside its byte of bit `n`, counted from the least
    /// significant bit of the byte.
    spec fn bit_index(self, n: int) -> int;

    /// A bit order sends every bit to one of the eight positions of a byte,
    /// and two bits to the same position exactly when they sit at the same
    /// place in their groups of eight.
    proof fn bit_index_is_layout(self, a: int, b: int)
        requires
            0 <= a,
            0 <= b,
        ensures
            0 <= self.bit_index(a) < 8,
            self.bit_index(a) == self.bit_index(b) <==> a % 8 == b % 8,
    ;

    /// A bit order leaves none of the eight positions of a byte out: each is
    /// taken by one of the first eight bits, which the law hands back.
    proof fn bit_index_is_onto(self, bit: int) -> (n: int)
        requires
            0 <= bit < 8,
        ensures
            0 <= n < 8,
            self.bit_index(n) == bit,
    ;

    /// Finds the byte that holds bit `n` of `num_bits` bits under the byte
    /// order `endian`, and the position of the bit inside that byte.
    fn find_bit<E: ByteOrder>(self, endian: E, n: usize, num_bits: usize) -> (at: (usize, usize))
        requires
            n < num_bits,
        ensures
            at.0 == endian.byte_index(n as int, num_bits as int),
            at.1 == self.bit_index(n as int),
    ;
}

/// Most significant bit first: the first bit of each group of eight takes
/// the highest place of its byte.
#[derive(Debug, Clone, Copy, PartialEq, Eq, Structural)]
pub struct Msb0;

/// Least significant bit first: the first bit of each group of eight takes
/// the lowest place of its byte.
#[derive(Debug, Clone, Copy, PartialEq, Eq, Structural)]
pub struct Lsb0;

/// A bit order chosen at run time.
#[derive(Debug, Clone, Copy, PartialEq, Eq, Structural)]
pub enum DynBitOrder {
    /// Most significant bit first.
    Msb0,
    /// Least significant bit first.
    Lsb0,
}

impl Sealed for Msb0 {

}

impl Sealed for Lsb0 {

}

impl Sealed for DynBitOrder {

}

impl Default for Msb0 {
    fn default() -> (order: Self)
        ensures
            order == Msb0,
    {
        Msb0
    }
}

impl Default for Lsb0 {
    fn default() -> (order: Self)
        ensures
            order == Lsb0,
    {
        Lsb0
    }
}

impl BitOrder for Msb0 {
    open spec fn bit_index(self, n: int) -> int {
        7 - Lsb0.bit_index(n)
    }

    proof fn bit_index_is_layout(self, a: int, b: int) {
    }

    proof fn bit_index_is_onto(self, bit: int) -> (n: int) {
        7 - bit
    }

    #[inline]
    fn find_bit<E: ByteOrder>(self, endian: E, n: usize, num_bits: usize) -> (at: (usize, usize)) {
        let (byte, bit) = Lsb0.find_bit(endian, n, num_bits);
        (byte, 7 - bit)
    }
}

impl BitOrder for Lsb0 {
    open spec fn bit_index(self, n: int) -> int {
        n % 8
    }

    proof fn bit_index_is_layout(self, a: int, b: int) {
    }

    proof fn bit_index_is_onto(self, bit: int) -> (n: int) {
        bit
    }

    #[inline(always)]
    fn find_bit<E: ByteOrder>(self, endian: E, n: usize, num_bits: usize) -> (at: (usize, usize)) {
        let byte = endian.find_byte(n, num_bits);
        let bit: usize = n % 8;
        (byte, bit)
    }
}

impl BitOrder for DynBitOrder {
    open spec fn bit_index(self, n: int) -> int {
        match self {
            DynBitOrder::Msb0 => Msb0.bit_index(n),
            DynBitOrder::Lsb0 => Lsb0.bit_index(n),
        }
    }

    proof fn bit_index_is_layout(self, a: int, b: int) {
        match self {
            DynBitOrder::Msb0 => Msb0.bit_index_is_layout(a, b),
            DynBitOrder::Lsb0 => Lsb0.bit_index_is_layout(a, b),
        }
    }

    proof fn bit_index_is_onto(self, bit: int) -> (n: int) {
        match self {
            DynBitOrder::Msb0 => Msb0.bit_index_is_onto(bit),
            DynBitOrder::Lsb0 => Lsb0.bit_index_is_onto(bit),
        }
    }

    #[inline(always)]
    fn find_bit<E: ByteOrder>(self, endian: E, n: usize, num_bits: usize) -> (at: (usize, usize)) {
        match self {
            DynBitOrder::Msb0 => Msb0.find_bit(endian, n, num_bits),
            DynBitOrder::Lsb0 => Lsb0.find_bit(endian, n, num_bits),
        }
    }
}

} // verus!
