//! The ways a call into the library can fail.
use vstd::prelude::*;

verus! {

/// What went wrong. Each variant carries the path, the fault description or
/// the field name that it concerns.
#[derive(Clone, Debug)]
pub enum PreludeError {
    /// The path names no regular file.
    FileNotFound(String),
    /// The file's extension is not `xml`.
    InvalidFileType(String),
    /// The text is not a well-formed document, or could not be read.
    Parsing(String),
    /// A supplementary record lacks one of the two merge key fields.
    MissingMergeKeyField(String),
}

} // verus!
