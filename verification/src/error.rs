use vstd::prelude::*;

verus! {

/// The bits of a view do not fit the integer asked for.
#[derive(Debug, Clone, Copy, PartialEq, Eq, Structural)]
pub struct ConversionError;

/// What an operation on a view can fail with and report.
#[derive(Debug, Clone, Copy, PartialEq, Eq, Structural)]
pub enum Error {
    /// A bit was pushed to a view that already fills its buffer.
    CapacityExceeded,
    /// The bits of a view do not fit the integer asked for.
    Conversion,
}

impl From<ConversionError> for Error {
    fn from(error: ConversionError) -> (out: Self) {
        Error::Conversion
    }
}

impl vstd::std_specs::convert::FromSpecImpl<ConversionError> for Error {
    open spec fn obeys_from_spec() -> bool {
        true
    }

    open spec fn from_spec(error: ConversionError) -> Self {
        Error::Conversion
    }
}

} // verus!
