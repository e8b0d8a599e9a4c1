//! What can go wrong while ingesting or serving.

use vstd::prelude::*;

verus! {

/// A failure, by kind. The text, where there is one, is the cause as the
/// failing part reported it.
#[derive(Clone, Debug, PartialEq, Eq)]
pub enum Error {
    /// A corrupt header or a truncated stream.
    InputMalformed(String),
    /// The extractor ended with this exit code, or without one where a
    /// signal ended it.
    ChildExit(Option<i32>),
    /// A read or write failed.
    Io(String),
    /// A task of the pipeline was cancelled or panicked.
    Task(String),
    /// The store failed.
    Db(String),
    /// Nothing is recorded under the digest asked for.
    NotFound,
    /// A page could not be rendered.
    TemplateRender(String),
    /// Stored data could not be decoded.
    SerdeDecode(String),
}

} // verus!
