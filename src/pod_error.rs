//! Errors of reading plain-old-data values out of byte buffers.
use vstd::prelude::*;

verus! {

/// Why a byte buffer could not be read as a slice of plain-old-data values.
#[derive(Clone, Copy, Debug, PartialEq, Eq, Structural)]
pub enum PodSliceError {
    /// A checked arithmetic operation overflowed.
    CalculationFailure,
    /// The buffer is too small for the expected type.
    BufferTooSmall,
    /// The buffer is too large for the expected type.
    BufferTooLarge,
}

impl PodSliceError {
    /// The numeric code of the error: its position in the declaration,
    /// counting from zero.
    pub fn code(&self) -> (r: u32)
        ensures
            r == match *self {
                PodSliceError::CalculationFailure => 0u32,
                PodSliceError::BufferTooSmall => 1u32,
                PodSliceError::BufferTooLarge => 2u32,
            },
    {
        match self {
            PodSliceError::CalculationFailure => 0,
            PodSliceError::BufferTooSmall => 1,
            PodSliceError::BufferTooLarge => 2,
        }
    }
}

} // verus!
