use bitslicer::{
    range_to_bounds, BigEndian, BitIter, BitOrder, BitSlice, Bound, ByteOrder, ByteStore, ConversionError,
    DynBitOrder, DynEndian, Error, LittleEndian, Lsb0, Msb0,
};

fn drain<S: ByteStore, B: BitOrder, E: ByteOrder>(mut iter: BitIter<S, B, E>) -> Vec<bool> {
    let mut out = Vec::new();
    while let Some(bit) = iter.next() {
        out.push(bit);
    }
    out
}

fn read_after_write<B: BitOrder, E: ByteOrder>(bit_order: B, byte_order: E) {
    let mut buffer = [0xa5u8, 0x3c, 0x00, 0xff, 0x12];
    let mut bits = BitSlice::new_with_order(&mut buffer, 37, bit_order, byte_order);
    for n in 0..37 {
        let before: Vec<bool> = (0..37).map(|i| bits.get_bit(i)).collect();
        for value in [true, false, true] {
            bits.set_bit(n, value);
            assert_eq!(bits.get_bit(n), value);
            for i in 0..37 {
                if i != n {
                    assert_eq!(bits.get_bit(i), before[i]);
                }
            }
        }
    }
}

#[test]
fn written_bit_reads_back_under_every_order() {
    read_after_write(Lsb0, LittleEndian);
    read_after_write(Lsb0, BigEndian);
    read_after_write(Msb0, LittleEndian);
    read_after_write(Msb0, BigEndian);
    read_after_write(DynBitOrder::Msb0, DynEndian::BigEndian);
    read_after_write(DynBitOrder::Lsb0, DynEndian::LittleEndian);
}

#[test]
fn set_bit_touches_one_bit_of_one_byte() {
    let mut buffer = [0u8; 4];
    let mut bits = BitSlice::new_with_order(&mut buffer, 32, Msb0, BigEndian);
    bits.set_bit(9, true);
    assert_eq!(buffer, [0, 0, 0b0100_0000, 0]);
    let mut buffer = [0xffu8; 4];
    let mut bits = BitSlice::new_with_order(&mut buffer, 32, Lsb0, LittleEndian);
    bits.set_bit(9, false);
    assert_eq!(buffer, [0xff, 0b1111_1101, 0xff, 0xff]);
}

#[test]
fn integers_round_trip() {
    for v in [0u8, 1, 0x80, 0xa5, u8::MAX] {
        let bits: BitSlice<_, Msb0, BigEndian> = v.into();
        assert_eq!(bits.len(), 8);
        assert_eq!(bits.to_uint(8), Ok(v as u128));
        assert_eq!(u8::try_from(bits), Ok(v));
    }
    for v in [0u16, 1, 0x8000, 0xbeef, u16::MAX] {
        let bits: BitSlice<_> = v.into();
        assert_eq!(bits.len(), 16);
        assert_eq!(u16::try_from(bits), Ok(v));
    }
    for v in [0u32, 1, 0x8000_0000, 0xdead_beef, u32::MAX] {
        let bits: BitSlice<_, Lsb0, BigEndian> = v.into();
        assert_eq!(bits.len(), 32);
        assert_eq!(u32::try_from(bits), Ok(v));
    }
    for v in [0u64, 1, 1 << 63, 0x0123_4567_89ab_cdef, u64::MAX] {
        let bits: BitSlice<_, Msb0, LittleEndian> = v.into();
        assert_eq!(bits.len(), 64);
        assert_eq!(u64::try_from(bits), Ok(v));
    }
    for v in [0u128, 1, 1 << 127, 0x0123_4567_89ab_cdef_0011_2233_4455_6677, u128::MAX] {
        let bits: BitSlice<_> = v.into();
        assert_eq!(bits.len(), 128);
        assert_eq!(bits.to_uint(128), Ok(v));
        assert_eq!(u128::try_from(bits), Ok(v));
    }
}

#[test]
fn machine_words_round_trip() {
    for v in [0usize, 1, 0x8000, usize::MAX / 3, usize::MAX] {
        let bits: BitSlice<_, Msb0, BigEndian> = v.into();
        assert_eq!(bits.len(), usize::BITS as usize);
        assert_eq!(bits.as_bytes().len(), (usize::BITS / 8) as usize);
        assert_eq!(bits.to_uint(usize::BITS as usize), Ok(v as u128));
        assert_eq!(usize::try_from(bits), Ok(v));
    }
    let bits: BitSlice<_> = 5usize.into();
    assert_eq!(bits.get_bit(0), true);
    assert_eq!(bits.get_bit(1), false);
    assert_eq!(bits.get_bit(2), true);
    assert_eq!(bits.as_bytes()[0], 5);
}

#[test]
fn integer_bits_come_least_significant_first() {
    let bits: BitSlice<_> = 0b0000_0110u8.into();
    assert_eq!(
        drain(bits.iter()),
        vec![false, true, true, false, false, false, false, false]
    );
    assert_eq!(bits.as_bytes(), &[0b0000_0110]);
    let bits: BitSlice<_, Msb0, BigEndian> = 0x0102u16.into();
    assert_eq!(bits.get_bit(1), true);
    assert_eq!(bits.get_bit(8), true);
    assert_eq!(bits.as_bytes(), &[0b1000_0000, 0b0100_0000]);
}

#[test]
fn narrower_integer_takes_what_fits() {
    let bits: BitSlice<_> = 0x00ffu16.into();
    assert_eq!(u8::try_from(bits), Ok(0xff));
    let bits: BitSlice<_> = 0x0100u16.into();
    assert_eq!(u8::try_from(bits), Err(ConversionError));
    let bits: BitSlice<_> = 0x0100u16.into();
    assert_eq!(bits.to_uint(8), Err(ConversionError));
    assert_eq!(bits.to_uint(9), Ok(0x100));
    assert_eq!(bits.to_uint(0), Err(ConversionError));
    let bits: BitSlice<_> = 0u16.into();
    assert_eq!(bits.to_uint(0), Ok(0));
    let bits: BitSlice<_> = u64::MAX.into();
    assert_eq!(u32::try_from(bits), Err(ConversionError));
    let bits: BitSlice<_> = (u32::MAX as u64).into();
    assert_eq!(usize::try_from(bits), Ok(u32::MAX as usize));
}

#[test]
fn views_longer_than_the_widest_integer() {
    let mut buffer = [0u8; 20];
    buffer[15] = 0x80;
    let bits: BitSlice<_, Lsb0, LittleEndian> = BitSlice::new(&buffer, 160);
    assert_eq!(bits.to_uint(128), Ok(1 << 127));
    assert_eq!(bits.to_uint(200), Ok(1 << 127));
    assert_eq!(bits.to_uint(127), Err(ConversionError));
    buffer[16] = 1;
    let bits: BitSlice<_, Lsb0, LittleEndian> = BitSlice::new(&buffer, 160);
    assert_eq!(bits.to_uint(128), Err(ConversionError));
    assert_eq!(bits.to_uint(200), Err(ConversionError));
    assert_eq!(u128::try_from(bits), Err(ConversionError));
}

#[test]
fn conversion_error_becomes_error() {
    assert_eq!(Error::from(ConversionError), Error::Conversion);
    assert_ne!(Error::Conversion, Error::CapacityExceeded);
}

#[test]
fn equal_content_in_different_buffers_is_equal() {
    let one = [0b1011_0010u8, 0xff];
    let two = [0x00u8, 0b1011_0010, 0x55];
    let a: BitSlice<_, Lsb0, LittleEndian> = BitSlice::new(&one, 8);
    let whole: BitSlice<_, Lsb0, LittleEndian> = BitSlice::new(&two, 24);
    let b = whole.slice(8..16);
    assert!(a == b);
    assert!(b == a);
    let owned: BitSlice<_, Lsb0, LittleEndian> = 0b1011_0010u8.into();
    assert!(a == owned);
}

#[test]
fn different_lengths_are_never_equal() {
    let one = [0u8, 0];
    let a: BitSlice<_, Lsb0, LittleEndian> = BitSlice::new(&one, 8);
    let b: BitSlice<_, Lsb0, LittleEndian> = BitSlice::new(&one, 9);
    assert!(a != b);
    assert!(b != a);
    assert!(a == b.slice(0..8));
    let c: BitSlice<_, Lsb0, LittleEndian> = BitSlice::new(&one, 0);
    assert!(a != c);
    assert!(c == b.slice(4..4));
}

#[test]
fn one_different_bit_makes_unequal() {
    let one = [0b0001_0000u8];
    let two = [0b0000_0000u8];
    let a: BitSlice<_, Msb0, BigEndian> = BitSlice::new(&one, 8);
    let b: BitSlice<_, Msb0, BigEndian> = BitSlice::new(&two, 8);
    assert!(a != b);
    assert!(a.slice(4..8) == b.slice(4..8));
    assert!(a.slice(0..3) == b.slice(0..3));
    assert!(a.slice(0..4) != b.slice(0..4));
}

#[test]
fn view_equals_sequence_of_booleans() {
    let bits: BitSlice<_, Lsb0, LittleEndian> = bitslicer::bits(&[1, 0, 0, 1]);
    assert!(bits == vec![true, false, false, true]);
    assert!(bits != vec![true, false, false]);
    assert!(bits != vec![true, false, false, false]);
    assert!(bits == [true, false, false, true][..]);
    assert!(bits.eq_bits(&[true, false, false, true]));
    assert!(!bits.eq_bits(&[true, false, false, true, false]));
    assert!(!bits.eq_bits(&[]));
}

#[test]
fn slice_of_slice_is_slice() {
    let buffer = [0x12u8, 0x34, 0x56, 0x78, 0x9a];
    let view: BitSlice<_, Msb0, BigEndian> = BitSlice::new(&buffer, 40);
    for (a, b, c, d) in [(3, 30, 2, 20), (0, 40, 0, 40), (8, 16, 8, 8), (5, 6, 0, 1), (17, 39, 3, 4)] {
        let outer = view.slice(a..b);
        let twice = outer.slice(c..d);
        let direct = view.slice(a + c..a + d);
        assert!(twice == direct);
        assert_eq!(twice.len(), d - c);
        assert_eq!(twice.bit_range(), direct.bit_range());
        assert_eq!(twice.bit_range(), (a + c, a + d));
        assert_eq!(drain(twice.iter()), drain(direct.iter()));
    }
}

#[test]
fn slice_shares_the_bytes() {
    let buffer = [1u8, 2, 3, 4];
    let view: BitSlice<_, Lsb0, BigEndian> = BitSlice::new(&buffer, 32);
    let sub = view.slice(9..20);
    assert_eq!(sub.as_bytes(), &buffer);
    assert_eq!(sub.bit_range(), (9, 20));
    assert_eq!(sub.len(), 11);
    for i in 0..11 {
        assert_eq!(sub.get_bit(i), view.get_bit(9 + i));
    }
}

#[test]
fn slice_bounds_resolve_like_ranges() {
    let buffer = [0b1100_1010u8, 0b0101_0011];
    let view: BitSlice<_, Lsb0, LittleEndian> = BitSlice::new(&buffer, 16);
    assert_eq!(view.slice_bounds(Bound::Included(2), Bound::Excluded(9)).bit_range(), (2, 9));
    assert_eq!(view.slice_bounds(Bound::Excluded(2), Bound::Included(9)).bit_range(), (3, 10));
    assert_eq!(view.slice_bounds(Bound::Unbounded, Bound::Unbounded).bit_range(), (0, 16));
    assert_eq!(view.slice_bounds(Bound::Unbounded, Bound::Included(15)).bit_range(), (0, 16));
    assert_eq!(view.slice_bounds(Bound::Included(16), Bound::Unbounded).bit_range(), (16, 16));
    assert!(view.slice_bounds(Bound::Included(2), Bound::Excluded(9)) == view.slice(2..9));
    let inner = view.slice(4..12);
    assert_eq!(inner.slice_bounds(Bound::Excluded(0), Bound::Unbounded).bit_range(), (5, 12));
}

#[test]
fn range_to_bounds_values() {
    assert_eq!(range_to_bounds(Bound::Included(3), Bound::Excluded(7), 10), (3, 7));
    assert_eq!(range_to_bounds(Bound::Excluded(3), Bound::Included(7), 10), (4, 8));
    assert_eq!(range_to_bounds(Bound::Unbounded, Bound::Unbounded, 10), (0, 10));
    assert_eq!(range_to_bounds(Bound::Unbounded, Bound::Unbounded, 0), (0, 0));
    assert_eq!(range_to_bounds(Bound::Included(9), Bound::Excluded(2), 10), (9, 2));
    assert_eq!(
        range_to_bounds(Bound::Excluded(usize::MAX - 1), Bound::Included(usize::MAX - 1), 0),
        (usize::MAX, usize::MAX)
    );
}

#[test]
fn cursor_runs_out_and_stays_out() {
    let buffer = [0b0000_0101u8];
    let view: BitSlice<_, Lsb0, LittleEndian> = BitSlice::new(&buffer, 3);
    let mut cursor = view.iter();
    assert_eq!(cursor.len(), 3);
    assert_eq!(cursor.size_hint(), (3, Some(3)));
    assert_eq!(cursor.next(), Some(true));
    assert_eq!(cursor.len(), 2);
    assert_eq!(cursor.next(), Some(false));
    assert_eq!(cursor.size_hint(), (1, Some(1)));
    assert_eq!(cursor.next(), Some(true));
    for _ in 0..5 {
        assert_eq!(cursor.len(), 0);
        assert_eq!(cursor.size_hint(), (0, Some(0)));
        assert_eq!(cursor.next(), None);
    }
    assert_eq!(cursor.count(), 0);
}

#[test]
fn fresh_cursor_starts_again() {
    let buffer = [0b0000_0010u8];
    let view: BitSlice<_, Lsb0, LittleEndian> = BitSlice::new(&buffer, 2);
    let mut first = view.iter();
    assert_eq!(first.next(), Some(false));
    assert_eq!(first.next(), Some(true));
    assert_eq!(first.next(), None);
    let mut second = view.iter();
    assert_eq!(second.next(), Some(false));
    assert_eq!(view.into_iter().count(), 2);
}

#[test]
fn cursor_over_no_bits() {
    let buffer: [u8; 0] = [];
    let view: BitSlice<_, Msb0, BigEndian> = BitSlice::new(&buffer, 0);
    assert_eq!(view.len(), 0);
    let mut cursor = view.iter();
    assert_eq!(cursor.next(), None);
    assert_eq!(cursor.nth(0), None);
    assert_eq!(cursor.nth(7), None);
    assert_eq!(cursor.len(), 0);
    assert_eq!(view.iter().last(), None);
    assert_eq!(view.to_uint(0), Ok(0));
    assert_eq!(view.bits_to_string(), "");
    assert!(view == view.slice(0..0));
}

#[test]
fn nth_skips_like_repeated_next() {
    let buffer = [0b1010_0110u8, 0b0000_0001];
    let view: BitSlice<_, Lsb0, LittleEndian> = BitSlice::new(&buffer, 10);
    let all = drain(view.iter());
    for start in 0..=10usize {
        for k in 0..=12usize {
            let mut by_nth = view.iter();
            let mut by_next = view.iter();
            for _ in 0..start {
                by_nth.next();
                by_next.next();
            }
            for _ in 0..k {
                by_next.next();
            }
            let expect = by_next.next();
            assert_eq!(by_nth.nth(k), expect);
            assert_eq!(expect, all.get(start + k).copied());
            assert_eq!(by_nth.len(), by_next.len());
            assert_eq!(by_nth.len(), 10usize.saturating_sub(start + k + 1));
        }
    }
    let mut cursor = view.iter();
    assert_eq!(cursor.nth(usize::MAX), None);
    assert_eq!(cursor.len(), 0);
    assert_eq!(cursor.next(), None);
}

#[test]
fn last_and_count() {
    let buffer = [0b0000_1000u8];
    let view: BitSlice<_, Lsb0, LittleEndian> = BitSlice::new(&buffer, 4);
    assert_eq!(view.iter().last(), Some(true));
    assert_eq!(view.iter().count(), 4);
    let mut cursor = view.iter();
    cursor.next();
    assert_eq!(cursor.len(), 3);
    let mut cursor = view.iter();
    cursor.nth(2);
    assert_eq!(cursor.count(), 1);
    let mut cursor = view.iter();
    cursor.nth(3);
    assert_eq!(cursor.last(), None);
    let view = view.slice(0..3);
    assert_eq!(view.iter().last(), Some(false));
}

#[test]
fn set_next_bit_writes_and_moves_on() {
    let mut buffer = [0u8, 0];
    let view: BitSlice<_, Msb0, LittleEndian> = BitSlice::new(&mut buffer, 12);
    let mut cursor = view.into_iter();
    for value in [true, true, false, true, false, false, true, false, true, true] {
        cursor.set_next_bit(value);
    }
    assert_eq!(cursor.len(), 2);
    assert_eq!(cursor.next(), Some(false));
    assert_eq!(cursor.next(), Some(false));
    assert_eq!(cursor.next(), None);
    assert_eq!(buffer, [0b1101_0010, 0b1100_0000]);
}

#[test]
fn push_stops_at_capacity() {
    let mut buffer = [0u8];
    let mut bits: BitSlice<_, Lsb0, LittleEndian> = BitSlice::new(&mut buffer, 0);
    for i in 0..8 {
        assert_eq!(bits.push(i % 3 == 0), Ok(()));
        assert_eq!(bits.len(), i + 1);
    }
    assert_eq!(bits.push(true), Err(Error::CapacityExceeded));
    assert_eq!(bits.push(false), Err(Error::CapacityExceeded));
    assert_eq!(bits.len(), 8);
    assert_eq!(bits.bits_to_string(), "10010010");
    assert_eq!(buffer, [0b0100_1001]);

    let mut nothing: [u8; 0] = [];
    let mut bits: BitSlice<_, Lsb0, LittleEndian> = BitSlice::new(&mut nothing, 0);
    assert_eq!(bits.push(true), Err(Error::CapacityExceeded));
    assert_eq!(bits.len(), 0);
}

#[test]
fn first_push_clears_the_buffer_and_later_ones_do_not() {
    let mut buffer = [0xffu8, 0xff];
    let mut bits: BitSlice<_, Lsb0, LittleEndian> = BitSlice::new(&mut buffer, 0);
    assert_eq!(bits.push(true), Ok(()));
    assert_eq!(bits.as_bytes(), &[0b0000_0001, 0]);
    bits.set_bit(0, false);
    assert_eq!(bits.push(true), Ok(()));
    assert_eq!(buffer, [0b0000_0010, 0]);

    let mut buffer = [0xffu8, 0xff];
    let mut bits: BitSlice<_, Lsb0, LittleEndian> = BitSlice::new(&mut buffer, 4);
    assert_eq!(bits.push(false), Ok(()));
    assert_eq!(bits.len(), 5);
    assert_eq!(bits.get_bit(4), false);
    assert_eq!(buffer, [0b1110_1111, 0xff]);
}

#[test]
fn push_keeps_earlier_bits() {
    let mut buffer = [0u8; 3];
    let mut bits: BitSlice<_, Msb0, BigEndian> = BitSlice::new(&mut buffer, 0);
    let pattern = [true, false, false, true, true, true, false, true, false, true, true, false, true];
    for (i, value) in pattern.iter().enumerate() {
        assert_eq!(bits.push(*value), Ok(()));
        assert!(bits.eq_bits(&pattern[..i + 1]));
    }
    assert_eq!(buffer, [0, 0b0110_1000, 0b1001_1101]);
}

#[test]
fn text_has_one_character_per_bit() {
    let bits: BitSlice<_, Lsb0, LittleEndian> = bitslicer::bits(&[0, 1, 1, 0, 1]);
    assert_eq!(bits.bits_to_string(), "01101");
    let bits: BitSlice<_, Msb0, BigEndian> = 0b1000_0001_0000_0000u16.into();
    assert_eq!(bits.bits_to_string(), "0000000010000001");
    assert_eq!(bits.slice(8..8).bits_to_string(), "");
    assert_eq!(bits.slice(7..9).bits_to_string(), "01");
}

#[test]
fn literal_takes_just_the_bytes_it_needs() {
    let bits: BitSlice<_, Lsb0, LittleEndian> = bitslicer::bits(&[]);
    assert_eq!(bits.len(), 0);
    assert_eq!(bits.as_bytes().len(), 0);
    let bits: BitSlice<_, Lsb0, LittleEndian> = bitslicer::bits(&[1]);
    assert_eq!(bits.as_bytes(), &[1]);
    let bits: BitSlice<_, Lsb0, LittleEndian> = bitslicer::bits(&[1, 0, 0, 0, 0, 0, 0, 1]);
    assert_eq!(bits.as_bytes(), &[0b1000_0001]);
    let bits: BitSlice<_, Msb0, BigEndian> = bitslicer::bits(&[1, 0, 0, 0, 0, 0, 0, 0, 7]);
    assert_eq!(bits.len(), 9);
    assert_eq!(bits.as_bytes(), &[0b1000_0000, 0b1000_0000]);
    assert!(bits == vec![true, false, false, false, false, false, false, false, true]);
}

#[test]
fn view_of_all_the_bytes() {
    let buffer = [9u8, 8, 7];
    let bits: BitSlice<_, Lsb0, BigEndian> = buffer.as_ref().into();
    assert_eq!(bits.len(), 24);
    assert_eq!(bits.bit_range(), (0, 24));
    assert_eq!(bits.as_bytes(), &[9, 8, 7]);
    assert_eq!(bits.bit_order(), Lsb0);
    assert_eq!(bits.byte_order(), BigEndian);
    assert!(bits.is_wf());
    let empty: &[u8] = &[];
    let bits: BitSlice<_, Lsb0, BigEndian> = empty.into();
    assert_eq!(bits.len(), 0);
}

#[test]
fn orders_chosen_at_run_time_address_like_the_fixed_ones() {
    let buffer = [0x12u8, 0x34, 0x56, 0x78];
    for (dyn_bit, dyn_byte) in [
        (DynBitOrder::Lsb0, DynEndian::LittleEndian),
        (DynBitOrder::Lsb0, DynEndian::BigEndian),
        (DynBitOrder::Msb0, DynEndian::LittleEndian),
        (DynBitOrder::Msb0, DynEndian::BigEndian),
    ] {
        let view = BitSlice::new_with_order(&buffer, 29, dyn_bit, dyn_byte);
        let text = view.bits_to_string();
        let expect = match (dyn_bit, dyn_byte) {
            (DynBitOrder::Lsb0, DynEndian::LittleEndian) => {
                BitSlice::new_with_order(&buffer, 29, Lsb0, LittleEndian).bits_to_string()
            }
            (DynBitOrder::Lsb0, DynEndian::BigEndian) => {
                BitSlice::new_with_order(&buffer, 29, Lsb0, BigEndian).bits_to_string()
            }
            (DynBitOrder::Msb0, DynEndian::LittleEndian) => {
                BitSlice::new_with_order(&buffer, 29, Msb0, LittleEndian).bits_to_string()
            }
            (DynBitOrder::Msb0, DynEndian::BigEndian) => {
                BitSlice::new_with_order(&buffer, 29, Msb0, BigEndian).bits_to_string()
            }
        };
        assert_eq!(text, expect);
    }
    let view = BitSlice::new_with_order(&buffer, 32, DynBitOrder::Msb0, DynEndian::LittleEndian);
    assert_eq!(view.bits_to_string(), "00010010001101000101011001111000");
    let view = BitSlice::new_with_order(&buffer, 32, DynBitOrder::Lsb0, DynEndian::BigEndian);
    assert_eq!(view.bits_to_string(), "00011110011010100010110001001000");
}

#[test]
fn byte_order_counts_from_the_end_of_the_buffer() {
    let buffer = [0xaau8, 0xbb, 0xcc, 0x01];
    let view: BitSlice<_, Lsb0, BigEndian> = BitSlice::new(&buffer, 8);
    assert_eq!(view.to_uint(8), Ok(0x01));
    let view: BitSlice<_, Lsb0, LittleEndian> = BitSlice::new(&buffer, 8);
    assert_eq!(view.to_uint(8), Ok(0xaa));
    let view: BitSlice<_, Lsb0, BigEndian> = BitSlice::new(&buffer, 32);
    assert_eq!(view.slice(8..16).to_uint(8), Ok(0xcc));
    assert_eq!(view.to_uint(32), Ok(0xaabbcc01));
    let view: BitSlice<_, Lsb0, LittleEndian> = BitSlice::new(&buffer, 32);
    assert_eq!(view.to_uint(32), Ok(0x01ccbbaa));
}

#[test]
fn find_byte_values() {
    assert_eq!(BigEndian.find_byte(0, 1), 0);
    assert_eq!(BigEndian.find_byte(7, 8), 0);
    assert_eq!(BigEndian.find_byte(0, 9), 1);
    assert_eq!(BigEndian.find_byte(8, 9), 0);
    assert_eq!(BigEndian.find_byte(31, 32), 0);
    assert_eq!(LittleEndian.find_byte(31, 32), 3);
    assert_eq!(LittleEndian.find_byte(8, 9), 1);
    assert_eq!(DynEndian::BigEndian.find_byte(usize::MAX - 1, usize::MAX), 0);
    assert_eq!(DynEndian::LittleEndian.find_byte(usize::MAX - 1, usize::MAX), usize::MAX / 8);
}

#[test]
fn find_bit_values() {
    for n in 0..32usize {
        assert_eq!(Lsb0.find_bit(LittleEndian, n, 32), (n / 8, n % 8));
        assert_eq!(Msb0.find_bit(LittleEndian, n, 32), (n / 8, 7 - n % 8));
        assert_eq!(Lsb0.find_bit(BigEndian, n, 32), (3 - n / 8, n % 8));
        assert_eq!(Msb0.find_bit(BigEndian, n, 32), (3 - n / 8, 7 - n % 8));
        assert_eq!(
            DynBitOrder::Msb0.find_bit(DynEndian::BigEndian, n, 32),
            Msb0.find_bit(BigEndian, n, 32)
        );
        assert_eq!(
            DynBitOrder::Lsb0.find_bit(DynEndian::LittleEndian, n, 32),
            Lsb0.find_bit(LittleEndian, n, 32)
        );
    }
}

#[test]
fn native_order_is_the_machine_s() {
    let little = u16::from_ne_bytes([1, 0]) == 1;
    assert_eq!(LittleEndian.is_native(), little);
    assert_eq!(BigEndian.is_native(), !little);
    assert_eq!(DynEndian::LittleEndian.is_native(), little);
    assert_eq!(DynEndian::BigEndian.is_native(), !little);
    assert!(LittleEndian.is_native_on(true));
    assert!(!LittleEndian.is_native_on(false));
    assert!(BigEndian.is_native_on(false));
    assert!(!BigEndian.is_native_on(true));
    assert!(DynEndian::BigEndian.is_native_on(false));
    assert!(!DynEndian::LittleEndian.is_native_on(false));
}

#[test]
fn orders_compare_across_their_forms() {
    assert!(DynBitOrder::Lsb0 == Lsb0);
    assert!(DynBitOrder::Msb0 == Msb0);
    assert!(DynBitOrder::Lsb0 != Msb0);
    assert!(DynBitOrder::Msb0 != Lsb0);
    assert!(Lsb0 == DynBitOrder::Lsb0);
    assert!(Msb0 != DynBitOrder::Lsb0);
    assert!(Lsb0 != Msb0);
    assert!(Msb0 != Lsb0);
    assert!(DynEndian::LittleEndian == LittleEndian);
    assert!(DynEndian::BigEndian == BigEndian);
    assert!(DynEndian::LittleEndian != BigEndian);
    assert!(DynEndian::BigEndian != LittleEndian);
    assert!(BigEndian == DynEndian::BigEndian);
    assert!(LittleEndian != DynEndian::BigEndian);
    assert!(BigEndian != LittleEndian);
    assert!(LittleEndian != BigEndian);
    assert_eq!(Lsb0::default(), Lsb0);
    assert_eq!(Msb0::default(), Msb0);
    assert_eq!(LittleEndian::default(), LittleEndian);
    assert_eq!(BigEndian::default(), BigEndian);
}
