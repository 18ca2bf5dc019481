//! Why a text was refused as a binary vector.

use vstd::prelude::*;

verus! {

/// The two ways in which a text can fail to be a binary vector of the wanted width.
#[derive(Debug, Clone, Copy, PartialEq, Eq, Structural)]
pub enum BitVecError {
    /// The text does not take up exactly as many bytes as the vector has positions.
    InvalidLength,
    /// The text has the right length, but holds a character other than `'0'` and `'1'`.
    InvalidValue,
}

impl BitVecError {
    /// The text of this error as a reader sees it.
    pub open spec fn message_spec(self) -> Seq<char> {
        match self {
            BitVecError::InvalidLength => "Invalid Length for BitVec"@,
            BitVecError::InvalidValue => "Invalid value for BitVec - elements can only be 0 or 1"@,
        }
    }

    /// Returns the human-readable description of the error.
    pub fn message(&self) -> (msg: &'static str)
        ensures
            msg@ == self.message_spec(),
    {
        match self {
            BitVecError::InvalidLength => "Invalid Length for BitVec",
            BitVecError::InvalidValue => "Invalid value for BitVec - elements can only be 0 or 1",
        }
    }
}

} // verus!
