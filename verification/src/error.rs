//! The two ways in which a declaration is refused.

use vstd::prelude::*;

verus! {

/// Why no code was generated for a token sequence.
#[derive(Clone, Copy, Debug, PartialEq, Eq, Structural)]
pub enum DeriveError {
    /// The tokens ended before a parenthesized or braced body followed the keyword `struct`.
    UnsupportedShape,
    /// A body was reached, but no identifier had named the structure.
    MissingName,
}

/// The message for a declaration without a supported body.
pub const UNSUPPORTED_SHAPE: &'static str = "can only be usual structures";

/// The message for a declaration without a name.
pub const MISSING_NAME: &'static str = "structure name not found";

impl DeriveError {
    /// The text of the message for `self`.
    pub open spec fn message_text(self) -> Seq<char> {
        match self {
            DeriveError::UnsupportedShape => UNSUPPORTED_SHAPE@,
            DeriveError::MissingName => MISSING_NAME@,
        }
    }

    /// The message with which the failure is reported.
    pub fn message(&self) -> (text: &'static str)
        ensures
            text@ == self.message_text(),
    {
        match self {
            DeriveError::UnsupportedShape => UNSUPPORTED_SHAPE,
            DeriveError::MissingName => MISSING_NAME,
        }
    }
}

} // verus!
