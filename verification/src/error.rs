//! The conditions under which an operation of this library fails.

use vstd::prelude::*;

verus! {

/// Why a code could not be built or used.
#[derive(Clone, Copy, Debug, PartialEq, Eq, Structural)]
pub enum CodeError {
    /// A vector has not the length that the code asks for.
    LengthMismatch,
    /// The parts of a code do not fit its length and dimension.
    ShapeMismatch,
    /// The syndrome table lacks an entry, or holds a wrong one.
    TableCoverageViolation,
}

/// Why a reduction was not carried out.
#[derive(Clone, Copy, Debug, PartialEq, Eq, Structural)]
pub enum ReductionError {
    /// The length of the code is not the dimension of the problem.
    DimensionMismatch,
    /// The drawn samples do not give an invertible change of basis.
    ReductionFailed,
}

impl CodeError {
    /// A sentence that says what went wrong.
    pub fn describe(&self) -> (text: &'static str)
        ensures
            text@ == (match *self {
                CodeError::LengthMismatch => "the length of the vector is not that of the code"@,
                CodeError::ShapeMismatch => "the parts of the code do not fit together"@,
                CodeError::TableCoverageViolation => "the syndrome table is not complete"@,
            }),
    {
        match self {
            CodeError::LengthMismatch => "the length of the vector is not that of the code",
            CodeError::ShapeMismatch => "the parts of the code do not fit together",
            CodeError::TableCoverageViolation => "the syndrome table is not complete",
        }
    }
}

impl ReductionError {
    /// A sentence that says what went wrong.
    pub fn describe(&self) -> (text: &'static str)
        ensures
            text@ == (match *self {
                ReductionError::DimensionMismatch =>
                    "The length of the code does not match the problem size!"@,
                ReductionError::ReductionFailed => "the drawn samples are not independent"@,
            }),
    {
        match self {
            ReductionError::DimensionMismatch =>
                "The length of the code does not match the problem size!",
            ReductionError::ReductionFailed => "the drawn samples are not independent",
        }
    }
}

} // verus!
