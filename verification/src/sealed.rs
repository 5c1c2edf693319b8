use vstd::prelude::*;

verus! {

/// Marker that closes the set of order policies: only the types of this
/// crate implement it, so no other crate can add a bit or byte order.
pub trait Sealed {

}

} // verus!
