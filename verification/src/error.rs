use vstd::prelude::*;
use crate::scalar::Unreadable;

verus! {

/// Why a matrix or network operation could not be carried out.
#[derive(Clone, Copy, Debug, PartialEq, Eq, Structural)]
pub enum MatrixError {
    /// Two operands have shapes that the operation cannot combine.
    DimensionMismatch,
    /// The operation needs a single row or a single column.
    ShapeNotVector,
    /// Persisted text or a dataset row is malformed.
    ParseFailure,
    /// A number does not fit the type it has to be converted to.
    NumericConversionFailure,
}

impl MatrixError {
    /// The error for a cell that could not be read.
    pub open spec fn unread(why: Unreadable) -> MatrixError {
        match why {
            Unreadable::Malformed => MatrixError::ParseFailure,
            Unreadable::OutOfRange => MatrixError::NumericConversionFailure,
        }
    }

    /// The error for a cell that could not be read: a malformed line is a
    /// `ParseFailure`, a number out of range a `NumericConversionFailure`.
    pub fn from_unreadable(why: Unreadable) -> (e: MatrixError)
        ensures
            e == Self::unread(why),
    {
        match why {
            Unreadable::Malformed => MatrixError::ParseFailure,
            Unreadable::OutOfRange => MatrixError::NumericConversionFailure,
        }
    }

    /// A short message for the error, as ASCII text.
    pub fn message(&self) -> (text: &'static str)
        ensures
            text@ == match *self {
                MatrixError::DimensionMismatch => "matrix dimensions do not match"@,
                MatrixError::ShapeNotVector => "matrix is neither a single row nor a single column"@,
                MatrixError::ParseFailure => "malformed text"@,
                MatrixError::NumericConversionFailure => "number out of range for the conversion"@,
            },
    {
        match self {
            MatrixError::DimensionMismatch => "matrix dimensions do not match",
            MatrixError::ShapeNotVector => "matrix is neither a single row nor a single column",
            MatrixError::ParseFailure => "malformed text",
            MatrixError::NumericConversionFailure => "number out of range for the conversion",
        }
    }
}

} // verus!
