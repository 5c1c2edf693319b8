use crate::order::{BigEndian, DynBitOrder, DynEndian, LittleEndian, Lsb0, Msb0};
use vstd::prelude::*;

verus! {

// An order chosen at run time equals the fixed order that it stands for, and
// no other; two different fixed orders are never equal.

impl PartialEq<Lsb0> for DynBitOrder {
    fn eq(&self, other: &Lsb0) -> (equal: bool) {
        matches!(*self, DynBitOrder::Lsb0)
    }
}

impl vstd::std_specs::cmp::PartialEqSpecImpl<Lsb0> for DynBitOrder {
    open spec fn obeys_eq_spec() -> bool {
        true
    }

    open spec fn eq_spec(&self, other: &Lsb0) -> bool {
        *self == DynBitOrder::Lsb0
    }
}

impl PartialEq<Msb0> for DynBitOrder {
    fn eq(&self, other: &Msb0) -> (equal: bool) {
        matches!(*self, DynBitOrder::Msb0)
    }
}

impl vstd::std_specs::cmp::PartialEqSpecImpl<Msb0> for DynBitOrder {
    open spec fn obeys_eq_spec() -> bool {
        true
    }

    open spec fn eq_spec(&self, other: &Msb0) -> bool {
        *self == DynBitOrder::Msb0
    }
}

impl PartialEq<DynBitOrder> for Lsb0 {
    fn eq(&self, other: &DynBitOrder) -> (equal: bool) {
        matches!(*other, DynBitOrder::Lsb0)
    }
}

impl vstd::std_specs::cmp::PartialEqSpecImpl<DynBitOrder> for Lsb0 {
    open spec fn obeys_eq_spec() -> bool {
        true
    }

    open spec fn eq_spec(&self, other: &DynBitOrder) -> bool {
        *other == DynBitOrder::Lsb0
    }
}

impl PartialEq<DynBitOrder> for Msb0 {
    fn eq(&self, other: &DynBitOrder) -> (equal: bool) {
        matches!(*other, DynBitOrder::Msb0)
    }
}

impl vstd::std_specs::cmp::PartialEqSpecImpl<DynBitOrder> for Msb0 {
    open spec fn obeys_eq_spec() -> bool {
        true
    }

    open spec fn eq_spec(&self, other: &DynBitOrder) -> bool {
        *other == DynBitOrder::Msb0
    }
}

impl PartialEq<Msb0> for Lsb0 {
    fn eq(&self, other: &Msb0) -> (equal: bool) {
        false
    }
}

impl vstd::std_specs::cmp::PartialEqSpecImpl<Msb0> for Lsb0 {
    open spec fn obeys_eq_spec() -> bool {
        true
    }

    open spec fn eq_spec(&self, other: &Msb0) -> bool {
        false
    }
}

impl PartialEq<Lsb0> for Msb0 {
    fn eq(&self, other: &Lsb0) -> (equal: bool) {
        false
    }
}

impl vstd::std_specs::cmp::PartialEqSpecImpl<Lsb0> for Msb0 {
    open spec fn obeys_eq_spec() -> bool {
        true
    }

    open spec fn eq_spec(&self, other: &Lsb0) -> bool {
        false
    }
}

impl PartialEq<LittleEndian> for DynEndian {
    fn eq(&self, other: &LittleEndian) -> (equal: bool) {
        matches!(*self, DynEndian::LittleEndian)
    }
}

impl vstd::std_specs::cmp::PartialEqSpecImpl<LittleEndian> for DynEndian {
    open spec fn obeys_eq_spec() -> bool {
        true
    }

    open spec fn eq_spec(&self, other: &LittleEndian) -> bool {
        *self == DynEndian::LittleEndian
    }
}

impl PartialEq<BigEndian> for DynEndian {
    fn eq(&self, other: &BigEndian) -> (equal: bool) {
        matches!(*self, DynEndian::BigEndian)
    }
}

impl vstd::std_specs::cmp::PartialEqSpecImpl<BigEndian> for DynEndian {
    open spec fn obeys_eq_spec() -> bool {
        true
    }

    open spec fn eq_spec(&self, other: &BigEndian) -> bool {
        *self == DynEndian::BigEndian
    }
}

impl PartialEq<DynEndian> for LittleEndian {
    fn eq(&self, other: &DynEndian) -> (equal: bool) {
        matches!(*other, DynEndian::LittleEndian)
    }
}

impl vstd::std_specs::cmp::PartialEqSpecImpl<DynEndian> for LittleEndian {
    open spec fn obeys_eq_spec() -> bool {
        true
    }

    open spec fn eq_spec(&self, other: &DynEndian) -> bool {
        *other == DynEndian::LittleEndian
    }
}

impl PartialEq<DynEndian> for BigEndian {
    fn eq(&self, other: &DynEndian) -> (equal: bool) {
        matches!(*other, DynEndian::BigEndian)
    }
}

impl vstd::std_specs::cmp::PartialEqSpecImpl<DynEndian> for BigEndian {
    open spec fn obeys_eq_spec() -> bool {
        true
    }

    open spec fn eq_spec(&self, other: &DynEndian) -> bool {
        *other == DynEndian::BigEndian
    }
}

impl PartialEq<BigEndian> for LittleEndian {
    fn eq(&self, other: &BigEndian) -> (equal: bool) {
        false
    }
}

impl vstd::std_specs::cmp::PartialEqSpecImpl<BigEndian> for LittleEndian {
    open spec fn obeys_eq_spec() -> bool {
        true
    }

    open spec fn eq_spec(&self, other: &BigEndian) -> bool {
        false
    }
}

impl PartialEq<LittleEndian> for BigEndian {
    fn eq(&self, other: &LittleEndian) -> (equal: bool) {
        false
    }
}

impl vstd::std_specs::cmp::PartialEqSpecImpl<LittleEndian> for BigEndian {
    open spec fn obeys_eq_spec() -> bool {
        true
    }

    open spec fn eq_spec(&self, other: &LittleEndian) -> bool {
        false
    }
}

} // verus!
