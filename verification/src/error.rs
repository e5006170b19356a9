//! The errors of the coordinator.

use core::convert::Infallible;
use vstd::prelude::*;

verus! {

/// What can go wrong in the coordinator. A variant with a `String` carries
/// the text of the failure that it wraps.
#[derive(Debug, PartialEq, Eq)]
pub enum MementerError {
    Serialization(String),
    Infallible(Infallible),
    EntryError(String),
    AgentTag,
    Wasm(String),
    Timestamp(String),
    MissingPath,
    HashConversionError,
}

impl MementerError {
    /// The text of the error: that of the wrapped failure where there is
    /// one, a fixed sentence otherwise.
    pub open spec fn spec_message(self) -> Seq<char> {
        match self {
            MementerError::Serialization(text) => text@,
            MementerError::Infallible(_) => Seq::<char>::empty(),
            MementerError::EntryError(text) => text@,
            MementerError::AgentTag => "Failed to convert an agent link tag to an agent pub key"@,
            MementerError::Wasm(text) => text@,
            MementerError::Timestamp(text) => text@,
            MementerError::MissingPath => "Tree path does not exist"@,
            MementerError::HashConversionError => "error converting hash"@,
        }
    }

    pub fn message(&self) -> (text: String)
        ensures
            text@ == self.spec_message(),
    {
        match self {
            MementerError::Serialization(text) => text.clone(),
            MementerError::Infallible(_) => String::new(),
            MementerError::EntryError(text) => text.clone(),
            MementerError::AgentTag => "Failed to convert an agent link tag to an agent pub key".to_owned(),
            MementerError::Wasm(text) => text.clone(),
            MementerError::Timestamp(text) => text.clone(),
            MementerError::MissingPath => "Tree path does not exist".to_owned(),
            MementerError::HashConversionError => "error converting hash".to_owned(),
        }
    }
}

/// The text with which a lookup of a mementer fails.
pub open spec fn spec_not_found_text() -> Seq<char> {
    "Mementer not found"@
}

/// The error of a lookup that found no mementer.
pub fn not_found() -> (err: MementerError)
    ensures
        err matches MementerError::Wasm(text) && text@ == spec_not_found_text(),
{
    MementerError::Wasm("Mementer not found".to_owned())
}

} // verus!
