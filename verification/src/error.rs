use vstd::prelude::*;

verus! {

/// Why a request was turned down. Every kind is found before anything is
/// drawn, and none can be retried.
#[derive(Clone, Copy, Debug, PartialEq, Eq, Structural)]
pub enum ValidationError {
    /// A token is not a well-formed signed integer.
    InvalidInteger,
    /// A token is a well-formed integer that does not fit in 64 bits.
    IntegerOverflow,
    /// The explicit step is zero or negative.
    StepNotPositive,
    /// The end does not exceed the start.
    EndNotGreaterThanStart,
    /// The range holds a single index, or `start + step` overflows.
    SingleValueRange,
    /// The index one past the upper bound does not fit in 64 bits.
    EndTooLarge,
    /// More than three operands were given.
    TooManyOperands,
    /// `choice` was given with nothing after it.
    EmptyChoiceList,
    /// Exactly one operand was given: a seed, which is not supported.
    SeedingUnimplemented,
}

impl ValidationError {
    /// The process status that stands for this kind of failure.
    pub open spec fn status(self) -> int {
        match self {
            ValidationError::TooManyOperands => 1,
            ValidationError::SeedingUnimplemented => 255,
            _ => 2,
        }
    }

    /// The process status that stands for this kind of failure.
    pub fn exit_code(self) -> (code: i32)
        ensures
            code == self.status(),
    {
        match self {
            ValidationError::TooManyOperands => 1,
            ValidationError::SeedingUnimplemented => 255,
            _ => 2,
        }
    }
}

} // verus!
