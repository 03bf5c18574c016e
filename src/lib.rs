// Filesystem backend of a note-taking application, as verified decisions:
// paths are parsed into components, names are checked, and each operation on
// a vault is planned from the facts that the caller read from the disk.
use vstd::prelude::*;

pub mod config;
pub mod error;
pub mod laws;
pub mod listing;
pub mod names;
pub mod ops;
pub mod path;
pub mod text;

verus! {

} // verus!
