use vstd::prelude::*;

verus! {

/// One end of a range of bit indices.
#[derive(Debug, Clone, Copy, PartialEq, Eq, Structural)]
pub enum Bound {
    /// The range reaches the index and holds it.
    Included(usize),
    /// The range reaches the index and leaves it out.
    Excluded(usize),
    /// The range has no end on this side.
    Unbounded,
}

/// First index of a range that begins at `start_bound`.
pub open spec fn start_index(start_bound: Bound) -> int {
    match start_bound {
        Bound::Included(idx) => idx as int,
        Bound::Excluded(idx) => idx + 1,
        Bound::Unbounded => 0,
    }
}

/// Index just past the last one of a range that ends at `end_bound`, in a
/// sequence of `len` items.
pub open spec fn end_index(end_bound: Bound, len: int) -> int {
    match end_bound {
        Bound::Included(idx) => idx + 1,
        Bound::Excluded(idx) => idx as int,
        Bound::Unbounded => len,
    }
}

/// Turns the two ends of a range over a sequence of `len` items into its
/// first index and the index just past its last.
pub fn range_to_bounds(start_bound: Bound, end_bound: Bound, len: usize) -> (range: (usize, usize))
    requires
        start_index(start_bound) <= usize::MAX,
        end_index(end_bound, len as int) <= usize::MAX,
    ensures
        range.0 == start_index(start_bound),
        range.1 == end_index(end_bound, len as int),
{
    let start_index: usize = match start_bound {
        Bound::Included(idx) => idx,
        Bound::Excluded(idx) => idx + 1,
        Bound::Unbounded => 0,
    };
    let end_index: usize = match end_bound {
        Bound::Included(idx) => idx + 1,
        Bound::Excluded(idx) => idx,
        Bound::Unbounded => len,
    };
    (start_index, end_index)
}

} // verus!
