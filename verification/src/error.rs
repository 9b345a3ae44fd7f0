//! The error type of the library.

use vstd::prelude::*;

verus! {

/// What can go wrong while sealing or opening a container.
///
/// The four kinds are mutually exclusive; callers are expected to match on
/// [`CryptographyError::IncorrectPassword`] to ask for another password and
/// to treat the other three as defects.
#[derive(Debug, Clone, Copy, PartialEq, Eq, Structural)]
pub enum CryptographyError {
    /// The input is not a well-formed container.
    DecodingFailure,
    /// The container could not be laid out as bytes.
    EncodingFailure,
    /// The key-derivation function rejected its input.
    KeyGenerationFailure,
    /// The cipher refused the input: on opening, the authentication tag did
    /// not verify, which is what a wrong password or altered bytes lead to.
    IncorrectPassword,
}

impl CryptographyError {
    /// The name of the variant, as text.
    pub open spec fn name(self) -> Seq<char> {
        match self {
            CryptographyError::DecodingFailure => "DecodingFailure"@,
            CryptographyError::EncodingFailure => "EncodingFailure"@,
            CryptographyError::KeyGenerationFailure => "KeyGenerationFailure"@,
            CryptographyError::IncorrectPassword => "IncorrectPassword"@,
        }
    }

    /// The sentence that describes the error to a person.
    pub open spec fn description_text(self) -> Seq<char> {
        match self {
            CryptographyError::EncodingFailure => "Failed to encode data"@,
            CryptographyError::DecodingFailure => "Data not valid"@,
            CryptographyError::KeyGenerationFailure => "Failed to create key from password"@,
            CryptographyError::IncorrectPassword => "Given password was incorrect"@,
        }
    }

    /// A short human-readable description of the error.
    pub fn description(&self) -> (text: &'static str)
        ensures
            text@ == self.description_text(),
    {
        match self {
            CryptographyError::EncodingFailure => "Failed to encode data",
            CryptographyError::DecodingFailure => "Data not valid",
            CryptographyError::KeyGenerationFailure => "Failed to create key from password",
            CryptographyError::IncorrectPassword => "Given password was incorrect",
        }
    }

    /// The error as one line of text: the variant's name, then a line feed.
    pub fn to_string(&self) -> (line: String)
        ensures
            line@ == self.name() + "\n"@,
    {
        let line = match self {
            CryptographyError::DecodingFailure => "DecodingFailure\n",
            CryptographyError::EncodingFailure => "EncodingFailure\n",
            CryptographyError::KeyGenerationFailure => "KeyGenerationFailure\n",
            CryptographyError::IncorrectPassword => "IncorrectPassword\n",
        };
        proof {
            reveal_strlit("\n");
            reveal_strlit("DecodingFailure");
            reveal_strlit("DecodingFailure\n");
            reveal_strlit("EncodingFailure");
            reveal_strlit("EncodingFailure\n");
            reveal_strlit("KeyGenerationFailure");
            reveal_strlit("KeyGenerationFailure\n");
            reveal_strlit("IncorrectPassword");
            reveal_strlit("IncorrectPassword\n");
        }
        line.to_owned()
    }
}

} // verus!
