//! Why a lookup fails.
use vstd::prelude::*;

verus! {

/// Why a lookup gave no value.
#[derive(Debug, Clone)]
pub enum ApplicationError {
    /// Nothing is stored under the key.
    KeyNotFound(String),
    /// Anything else.
    Unknown,
}

impl ApplicationError {
    /// What the error says.
    pub open spec fn says(self) -> Seq<char> {
        match self {
            ApplicationError::KeyNotFound(key) => "Key not found: "@ + key@,
            ApplicationError::Unknown => "Unknown error"@,
        }
    }

    /// The error as a sentence.
    pub fn message(&self) -> (message: String)
        ensures
            message@ == self.says(),
    {
        match self {
            ApplicationError::KeyNotFound(key) => "Key not found: ".to_owned().concat(key.as_str()),
            ApplicationError::Unknown => "Unknown error".to_owned(),
        }
    }
}

} // verus!
