//! The failure taxonomy of the state container.

use vstd::prelude::*;

verus! {

/// Everything that can go wrong while loading or persisting a state value.
///
/// `NotFound` and `IoError` describe the caller's attempt to read or write
/// the state file; `DecodeError` and `EncodeError` describe the codec.
#[derive(Clone, Copy, Debug, PartialEq, Eq, Structural)]
pub enum StateError {
    /// No file exists at the state's location.
    NotFound,
    /// The persisted content is not a valid rendering of any value.
    DecodeError,
    /// Reading or writing the state file failed.
    IoError,
    /// The current value has no rendering.
    EncodeError,
}

impl StateError {
    /// The wording used when this failure is reported, as a sequence of
    /// characters.
    pub open spec fn describe_spec(self) -> Seq<char> {
        match self {
            StateError::NotFound => "state file not found"@,
            StateError::DecodeError => "persisted content is malformed"@,
            StateError::IoError => "state file could not be accessed"@,
            StateError::EncodeError => "value could not be encoded"@,
        }
    }

    /// A short human-readable account of the failure.
    pub fn describe(&self) -> (r: String)
        ensures
            r@ == self.describe_spec(),
    {
        match self {
            StateError::NotFound => String::from_str("state file not found"),
            StateError::DecodeError => String::from_str("persisted content is malformed"),
            StateError::IoError => String::from_str("state file could not be accessed"),
            StateError::EncodeError => String::from_str("value could not be encoded"),
        }
    }
}

} // verus!
