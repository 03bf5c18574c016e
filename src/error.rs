use vstd::prelude::*;

verus! {

/// Why an operation on a vault failed.
#[derive(Debug, PartialEq, Eq)]
pub enum VaultError {
    /// A path that must be an existing directory is not one.
    NotADirectory,
    /// The entry to act on does not exist.
    NotFound,
    /// The entry to act on is a directory where a file is needed.
    NotAFile,
    /// Something already occupies the target path.
    AlreadyExists,
    /// The requested name is empty, hidden or holds a separator.
    InvalidName,
    /// The path lies in the metadata directory.
    ReservedPath,
    /// The requested name is the metadata directory's own.
    ReservedName,
    /// A directory would be moved into itself or below itself.
    InvalidOperation,
    /// The path has no parent to rename within.
    InvalidTarget,
    /// Every candidate name for a new note is taken.
    ExhaustedNamespace,
    /// The operating system refused; its message.
    Io(String),
    /// The config record could not be encoded; the encoder's message.
    Serialization(String),
}

} // verus!
