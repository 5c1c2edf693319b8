use crate::bitslice::BitSlice;
use crate::order::{BitOrder, ByteOrder};
use crate::store::ByteStore;
use vstd::prelude::*;

verus! {

/// `String::push` of the standard library appends the character to the end
/// of the string and leaves what stood there as it was.
pub assume_specification[ String::push ](text: &mut String, ch: char)
    ensures
        final(text)@ == old(text)@.push(ch),
;

/// The character that stands for one bit: `'1'` if set, else `'0'`.
pub open spec fn bit_char(bit: bool) -> char {
    if bit {
        '1'
    } else {
        '0'
    }
}

/// The text that stands for `bits`: one character each, bit 0 first.
pub open spec fn bits_text(bits: Seq<bool>) -> Seq<char> {
    Seq::new(bits.len(), |i: int| bit_char(bits[i]))
}

impl<S: ByteStore, B: BitOrder, E: ByteOrder> BitSlice<S, B, E> {
    /// The bits of the view as text, one character each, bit 0 first.
    pub fn bits_to_string(&self) -> (text: String)
        requires
            self.wf(),
        ensures
            text@ == bits_text(self@),
    {
        let mut text = String::new();
        for n in 0..self.len()
            invariant
                self.wf(),
                text@ == bits_text(self@.take(n as int)),
        {
            let ch = if self.get_bit(n) {
                '1'
            } else {
                '0'
            };
            text.push(ch);
            assert(bits_text(self@.take(n + 1)) =~= bits_text(self@.take(n as int)).push(ch));
        }
        assert(self@.take(self.len() as int) =~= self@);
        text
    }
}

} // verus!
