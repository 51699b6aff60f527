//! Error kinds of the library.
use vstd::prelude::*;

verus! {

/// What went wrong in a chunking or transfer operation.
#[derive(Debug, Clone, Copy, PartialEq, Eq, Structural)]
pub enum TransferError {
    /// The file or download is not known.
    NotFound,
    /// A download for this file is already active.
    AlreadyExists,
    /// The request itself is malformed (wrong chunk count, index out of range).
    InvalidInput,
    /// Chunk contents disagree with their hashes or the manifest.
    InvalidData,
}

/// Errors of the wider node, each with its message.
#[derive(Debug)]
pub enum CoreLinkError {
    Network(String),
    Consensus(String),
    Storage(String),
    Crypto(String),
    Io(String),
}

} // verus!
