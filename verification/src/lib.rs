//! Bit-level views over byte buffers.
//!
//! A [`BitSlice`] is a window over bytes that someone else owns, through
//! which single bits are read, written, sliced, walked, appended and turned
//! into integers and back. Two orders say where a bit lies: a byte order
//! ([`LittleEndian`], [`BigEndian`], or [`DynEndian`] chosen at run time)
//! picks the byte, a bit order ([`Lsb0`], [`Msb0`], or [`DynBitOrder`]) the
//! place inside it.
//!
//! Together the two orders number all the bits of a buffer from 0, whatever
//! part of it a view shows ([`buffer_bits`]). A view is a run of those bits
//! ([`window_bits`]): it has a first bit and a length, and its bit `n` is bit
//! `start + n` of the buffer. Slicing a view gives another window over the
//! same bytes, and so never moves a bit.
//!
//! Every operation states what it returns or changes over these two models,
//! and the laws that tie the operations together are proof functions beside
//! them: what is written is read back ([`lemma_read_after_write`]), an
//! integer turned into bits and back is itself ([`lemma_uint_round_trip`]),
//! views are equal when their bits are ([`lemma_eq_is_structural`]), a
//! slice of a slice is a slice ([`lemma_slice_of_slice`]), a cursor that has
//! run out stays so ([`lemma_exhaustion`]), and the bits of a buffer say what
//! its bytes are ([`lemma_bits_determine_bytes`]).

mod bitslice;
mod bounds;
mod compare;
mod convert;
mod error;
mod iter;
mod laws;
mod layout;
mod literal;
mod order;
mod order_eq;
mod sealed;
mod store;
mod text;

pub use bitslice::BitSlice;
pub use bounds::{end_index, range_to_bounds, start_index, Bound};
pub use compare::lemma_eq_is_structural;
pub use convert::{
    addressable, bit_weight, bits_of_uint, bits_value, lemma_value_ge_suffix,
    lemma_value_of_uint_bits, lemma_value_step, uint_of_bits,
};
pub use error::{ConversionError, Error};
pub use iter::{item_at, lemma_position_after, next_position, position_after, BitIter};
pub use laws::{
    lemma_exhaustion, lemma_read_after_write, lemma_slice_of_slice, lemma_uint_round_trip,
};
pub use layout::{
    bit_is_set, buffer_bits, capacity_bits, lemma_address_in_buffer, lemma_bits_determine_bytes,
    lemma_put_bit, lemma_with_bit, lemma_zeroed_bits, put_bit, stored_bit, window_bits, with_bit,
    zeroed,
};
pub use literal::{bits, literal_bits, padded};
pub use order::{
    byte_count, BigEndian, BitOrder, ByteOrder, DynBitOrder, DynEndian, LittleEndian, Lsb0, Msb0,
};
pub use store::{ByteStore, ByteStoreMut};
pub use text::{bit_char, bits_text};
