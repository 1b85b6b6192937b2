use vstd::prelude::*;

verus! {

/// The ways an operation on a container can fail.
#[derive(Debug, Clone, PartialEq, Eq)]
pub enum N5Error {
    /// An expected resource (root version, attributes document) is absent.
    NotFound,
    /// A resource is present but does not parse against the expected schema,
    /// or block bytes that the codec rejects.
    Malformed,
    /// The requested element type differs from the dataset's declared type.
    TypeMismatch,
    /// The operation cannot be carried out over this backend.
    Unsupported,
    /// The container's format version is newer than this library reads.
    Incompatible,
    /// The transport failed; the message describes how.
    Transport(String),
}

} // verus!
