use vstd::prelude::*;
use vstd::string::*;

verus! {

/// Why a command-line argument was turned down.
#[derive(Debug, Clone, PartialEq, Eq)]
pub enum ParseError {
    /// A body token without a `=`; carries the token as it was given.
    MalformedPair { token: String },
    /// An address that is no absolute URL; carries the parser's diagnostic.
    InvalidUrl { diagnostic: String },
}

impl ParseError {
    /// The text shown to the user for this error.
    pub open spec fn message_text(&self) -> Seq<char> {
        match self {
            ParseError::MalformedPair { token } => "Failed to parse "@ + token@,
            ParseError::InvalidUrl { diagnostic } => diagnostic@,
        }
    }

    /// Writes the error out for the user.
    pub fn message(&self) -> (r: String)
        ensures
            r@ == self.message_text(),
    {
        match self {
            ParseError::MalformedPair { token } => {
                String::from_str("Failed to parse ").concat(token.as_str())
            },
            ParseError::InvalidUrl { diagnostic } => diagnostic.clone(),
        }
    }
}

} // verus!
