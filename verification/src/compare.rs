use crate::bitslice::BitSlice;
use crate::order::{BitOrder, ByteOrder};
use crate::store::ByteStore;
use vstd::prelude::*;
use vstd::std_specs::cmp::PartialEqSpec;

verus! {

impl<S: ByteStore, B: BitOrder, E: ByteOrder> BitSlice<S, B, E> {
    /// Whether the view holds the bits of `other`, as many and in the same
    /// order.
    pub fn eq_bits(&self, other: &[bool]) -> (equal: bool)
        requires
            self.wf(),
        ensures
            equal == (self@ == other@),
    {
        assert(self@.len() == self.len());
        if self.len() != other.len() {
            return false;
        }
        for i in 0..self.len()
            invariant
                self.wf(),
                self.len() == other@.len(),
                forall|j: int| 0 <= j < i ==> self@[j] == other@[j],
        {
            if self.get_bit(i) != other[i] {
                return false;
            }
        }
        assert(self@ =~= other@);
        true
    }
}

impl<S: ByteStore, S2: ByteStore, B: BitOrder, E: ByteOrder> PartialEq<
    BitSlice<S2, B, E>,
> for BitSlice<S, B, E> {
    /// Whether the two views hold the same bits, as many and in the same
    /// order, whatever buffers they lie in.
    fn eq(&self, other: &BitSlice<S2, B, E>) -> (equal: bool) {
        if !self.is_wf() || !other.is_wf() {
            return false;
        }
        assert(self@.len() == self.len() && other@.len() == other.len());
        if self.len() != other.len() {
            return false;
        }
        for i in 0..self.len()
            invariant
                self.wf(),
                other.wf(),
                self.len() == other.len(),
                forall|j: int| 0 <= j < i ==> self@[j] == other@[j],
        {
            if self.get_bit(i) != other.get_bit(i) {
                return false;
            }
        }
        assert(self@ =~= other@);
        true
    }
}

impl<S: ByteStore, S2: ByteStore, B: BitOrder, E: ByteOrder> vstd::std_specs::cmp::PartialEqSpecImpl<
    BitSlice<S2, B, E>,
> for BitSlice<S, B, E> {
    open spec fn obeys_eq_spec() -> bool {
        true
    }

    open spec fn eq_spec(&self, other: &BitSlice<S2, B, E>) -> bool {
        self.wf() && other.wf() && self@ == other@
    }
}

impl<S: ByteStore, B: BitOrder, E: ByteOrder> PartialEq<[bool]> for BitSlice<S, B, E> {
    /// Whether the view holds the bits of `other`, as many and in the same
    /// order.
    fn eq(&self, other: &[bool]) -> (equal: bool) {
        self.is_wf() && self.eq_bits(other)
    }
}

impl<S: ByteStore, B: BitOrder, E: ByteOrder> vstd::std_specs::cmp::PartialEqSpecImpl<[bool]> for BitSlice<S, B, E> {
    open spec fn obeys_eq_spec() -> bool {
        true
    }

    open spec fn eq_spec(&self, other: &[bool]) -> bool {
        self.wf() && self@ == other@
    }
}

impl<S: ByteStore, B: BitOrder, E: ByteOrder> PartialEq<Vec<bool>> for BitSlice<S, B, E> {
    /// Whether the view holds the bits of `other`, as many and in the same
    /// order.
    fn eq(&self, other: &Vec<bool>) -> (equal: bool) {
        self.is_wf() && self.eq_bits(other.as_slice())
    }
}

impl<S: ByteStore, B: BitOrder, E: ByteOrder> vstd::std_specs::cmp::PartialEqSpecImpl<Vec<bool>> for BitSlice<S, B, E> {
    open spec fn obeys_eq_spec() -> bool {
        true
    }

    open spec fn eq_spec(&self, other: &Vec<bool>) -> bool {
        self.wf() && self@ == other@
    }
}

/// Two well-formed views are equal exactly when they hold the same bits, as
/// many and in the same order; the buffers they lie in, and where in them,
/// play no part.
pub proof fn lemma_eq_is_structural<
    S: ByteStore,
    S2: ByteStore,
    B: BitOrder,
    E: ByteOrder,
>(a: BitSlice<S, B, E>, b: BitSlice<S2, B, E>)
    requires
        a.wf(),
        b.wf(),
    ensures
        a.eq_spec(&b) <==> (a.len() == b.len() && forall|i: int|
            0 <= i < a.len() ==> a@[i] == b@[i]),
        a.len() != b.len() ==> !a.eq_spec(&b),
{
    assert(a@.len() == a.len() && b@.len() == b.len());
    if a.len() == b.len() && (forall|i: int| 0 <= i < a.len() ==> a@[i] == b@[i]) {
        assert(a@ =~= b@);
    }
}

} // verus!
