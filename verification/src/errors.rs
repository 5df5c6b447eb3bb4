use vstd::prelude::*;

verus! {

/// Why a piece of user input was rejected.
#[derive(Clone, Copy, Debug, PartialEq, Eq, Structural)]
pub enum ValidationError {
    /// A guess whose length differs from the expected number of digits.
    WrongLength,
    /// Input that does not parse as an unsigned decimal integer.
    NotNumeric,
    /// A sample size outside the accepted range.
    OutOfRange,
}

/// Why rendering a template could not proceed.
#[derive(Clone, Copy, Debug, PartialEq, Eq, Structural)]
pub enum RenderError {
    /// The fill text was empty, so there is no character to draw with.
    EmptyFillText,
}

} // verus!
