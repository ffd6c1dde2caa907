//! The error taxonomy of the math pipeline.  Every fatal error aborts the
//! current equation and is propagated unchanged to the caller; there is no
//! partial recovery.
use vstd::prelude::*;

verus! {

/// A fatal error while turning a descriptor stream into markup.
#[derive(Debug, Clone, Copy, PartialEq, Eq, Structural)]
pub enum MathError {
    /// The current token does not match what the grammar rule in progress
    /// requires: a wrong object type at a start, separator or end position,
    /// or a separator, end or end-of-stream where an operator was expected.
    UnexpectedToken,
    /// A descriptor's declared argument count differs from the arity its
    /// construct requires.
    ArityMismatch,
    /// A required descriptor field (an operator character, a bracket or kind
    /// specifier, a column count) is absent.
    MissingField,
    /// An enumerated descriptor value falls outside its known range.
    InvalidValue,
    /// Alignment data is present on a construct defined to carry none.
    UnexpectedAlignData,
}

impl MathError {
    /// A short human-readable description of the error.
    pub fn describe(&self) -> (r: String)
        ensures
            r@ == self.spec_describe(),
    {
        match self {
            MathError::UnexpectedToken => String::from_str(
                "unexpected math token for the grammar rule in progress",
            ),
            MathError::ArityMismatch => String::from_str(
                "unexpected argument count for the math object type",
            ),
            MathError::MissingField => String::from_str(
                "a required math descriptor field is absent",
            ),
            MathError::InvalidValue => String::from_str(
                "a math descriptor value falls outside its known range",
            ),
            MathError::UnexpectedAlignData => String::from_str(
                "unexpected alignment data on a math object that carries none",
            ),
        }
    }

    /// The description of the error.
    pub open spec fn spec_describe(&self) -> Seq<char> {
        match self {
            MathError::UnexpectedToken => "unexpected math token for the grammar rule in progress"@,
            MathError::ArityMismatch => "unexpected argument count for the math object type"@,
            MathError::MissingField => "a required math descriptor field is absent"@,
            MathError::InvalidValue => "a math descriptor value falls outside its known range"@,
            MathError::UnexpectedAlignData
                => "unexpected alignment data on a math object that carries none"@,
        }
    }
}

} // verus!
