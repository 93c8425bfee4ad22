//! The error of a conversion.

use vstd::prelude::*;

verus! {

/// Why a conversion was refused.
#[derive(Clone, Copy, Debug, PartialEq, Eq, Structural)]
pub enum Seq2XBinError {
    /// The number of columns was given as zero.
    InvalidColumnValue,
}

impl Seq2XBinError {
    /// The words that describe the error.
    pub open spec fn spec_message(self) -> Seq<char> {
        match self {
            Seq2XBinError::InvalidColumnValue => "Invalid Column Value"@,
        }
    }

    /// Describes the error in words, for a message to the user.
    pub fn message(&self) -> (text: String)
        ensures
            text@ == self.spec_message(),
    {
        match self {
            Seq2XBinError::InvalidColumnValue => "Invalid Column Value".to_string(),
        }
    }
}

} // verus!
