//! Errors reported by the library.

use vstd::prelude::*;

verus! {

/// Reasons why bytes cannot be read as field elements.
#[derive(Debug, Clone, Copy, PartialEq, Eq, Structural)]
pub enum SerializationError {
    /// The bytes do not encode a canonical residue, or there are not exactly as
    /// many of them as one element takes.
    InvalidFieldElement,
    /// The buffer does not start on a boundary of the base element size.
    InvalidAlignment,
    /// The buffer does not hold a whole number of elements.
    InvalidLength,
}

/// Reasons why an assertion cannot be placed against an execution trace.
#[derive(Debug, Clone, Copy, PartialEq, Eq, Structural)]
pub enum AssertionError {
    /// The trace has no column for the asserted register: expected at least a
    /// width above the register (first field), but the width was the second.
    TraceWidthTooShort(usize, usize),
    /// The trace length (the field) is not a power of two.
    TraceLengthNotPowerOfTwo(usize),
    /// The trace ends before the asserted steps: it must be at least as long as
    /// the first field, but its length was the second.
    TraceLengthTooShort(usize, usize),
    /// A sequence assertion implies the trace length in the first field, but the
    /// length was the second.
    TraceLengthNotExact(usize, usize),
}

/// Reasons why a stride and a first step do not describe a progression of steps.
#[derive(Debug, Clone, Copy, PartialEq, Eq, Structural)]
pub enum StrideError {
    /// The stride (second field) asserted for the register (first field) is not
    /// a power of two.
    NotPowerOfTwo(usize, usize),
    /// The stride (second field) asserted for the register (first field) is
    /// below the minimum of two steps.
    TooSmall(usize, usize),
    /// The first step (third field) asserted for the register (first field) does
    /// not come before the stride (second field).
    FirstStepTooLarge(usize, usize, usize),
}

} // verus!
