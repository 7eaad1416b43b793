use vstd::prelude::*;

verus! {

/// Failure to load a scene or its settings.
#[derive(Debug)]
pub enum Error {
    /// The mesh asset is malformed.
    ImportError(String),
    /// A file is missing or cannot be read.
    IoError(String),
    /// A JSON document or a header does not parse.
    FormatError(String),
}

} // verus!
