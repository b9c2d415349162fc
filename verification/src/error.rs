//! Errors of the two decoders.

use vstd::prelude::*;

verus! {

/// Why a byte buffer could not be read as a flat map.
#[derive(Clone, Copy, Debug, PartialEq, Eq)]
pub enum FormatError {
    /// The first byte names no known layout.
    InvalidVersion,
    /// The buffer ends before the data that it declares.
    Truncated,
    /// A string region is not valid UTF-8.
    InvalidString,
}

/// Why a schema-driven read failed.
#[derive(Debug, PartialEq, Eq)]
pub enum Error {
    /// A message raised by the caller that walks the schema.
    Message(String),
    /// The input was not a flat map.
    Format(FormatError),
    /// The requested kind of value is not one this decoder serves.
    TypeUnsupported,
    /// A required field has no entry under its hash key.
    FieldNotFound(u32),
    /// More fields were asked for than the current struct declares.
    SchemaExhausted,
}

impl FormatError {
    /// The short name of the error.
    pub open spec fn description_spec(self) -> Seq<char> {
        match self {
            FormatError::InvalidVersion => "InvalidVersion"@,
            FormatError::Truncated => "Truncated"@,
            FormatError::InvalidString => "InvalidString"@,
        }
    }

    /// The short name of the error.
    pub fn description(&self) -> (s: String)
        ensures
            s@ == self.description_spec(),
    {
        match self {
            FormatError::InvalidVersion => "InvalidVersion".to_owned(),
            FormatError::Truncated => "Truncated".to_owned(),
            FormatError::InvalidString => "InvalidString".to_owned(),
        }
    }
}

impl Error {
    /// The text of a message, else the short name of the error.
    pub open spec fn description_spec(self) -> Seq<char> {
        match self {
            Error::Message(msg) => msg@,
            Error::Format(e) => e.description_spec(),
            Error::TypeUnsupported => "Unsupported"@,
            Error::FieldNotFound(_) => "FieldNotFound"@,
            Error::SchemaExhausted => "SchemaExhausted"@,
        }
    }

    /// The text of a message, else the short name of the error.
    pub fn description(&self) -> (s: String)
        ensures
            s@ == self.description_spec(),
    {
        match self {
            Error::Message(msg) => msg.clone(),
            Error::Format(e) => e.description(),
            Error::TypeUnsupported => "Unsupported".to_owned(),
            Error::FieldNotFound(_) => "FieldNotFound".to_owned(),
            Error::SchemaExhausted => "SchemaExhausted".to_owned(),
        }
    }
}

impl Clone for Error {
    fn clone(&self) -> (r: Self)
        ensures
            r == *self,
    {
        match self {
            Error::Message(msg) => Error::Message(msg.clone()),
            Error::Format(e) => Error::Format(*e),
            Error::TypeUnsupported => Error::TypeUnsupported,
            Error::FieldNotFound(key) => Error::FieldNotFound(*key),
            Error::SchemaExhausted => Error::SchemaExhausted,
        }
    }
}

impl From<FormatError> for Error {
    fn from(e: FormatError) -> (r: Error) {
        Error::Format(e)
    }
}

impl vstd::std_specs::convert::FromSpecImpl<FormatError> for Error {
    open spec fn obeys_from_spec() -> bool {
        true
    }

    open spec fn from_spec(e: FormatError) -> Error {
        Error::Format(e)
    }
}

} // verus!
