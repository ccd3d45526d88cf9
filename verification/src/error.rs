//! The kinds of failure that the retrieval core reports.
use vstd::prelude::*;

verus! {

/// Why an operation was abandoned. No operation returns partial results
/// beside one of these.
#[derive(Clone, Copy, Debug, PartialEq, Eq, Structural)]
pub enum RagError {
    /// A path to ingest, or the reference of a command, is absent or names nothing.
    InvalidPath,
    /// A file to look into has 100 MiB or more.
    FileTooLarge,
    /// The embedder failed, or did not answer with one vector per text.
    EmbeddingFailure,
    /// Two embeddings of different dimension were to be compared.
    DimensionMismatch,
    /// The reference is no file and no mode says what else it is; or nothing is stored under it.
    NotFound,
    /// The reference is no file and the mode is not one that is known.
    UnsupportedFolderKind,
    /// A path could not be read or written, or the driver of a resolution
    /// reported something that was not asked of it.
    IOFailure,
    /// A stored record is malformed.
    CorruptRecord,
    /// The configuration lacks a usable `chunk_size` or `overlap`.
    ConfigMissingField,
    /// More indirections were followed than `MAX_INDIRECTIONS` allows.
    RecursionLimitExceeded,
}

} // verus!
