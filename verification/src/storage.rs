//! Provider-neutral object references.

use vstd::prelude::*;

verus! {

/// Where an object was stored, and how private it is.
pub struct ObjectReference {
    pub id: String,
    pub provider: String,
    pub bucket: String,
    pub key: String,
    pub content_hash: String,
    pub privacy_classification: String,
}

/// Why an object could not be stored.
#[derive(Clone, Copy, Debug, PartialEq, Eq, Structural)]
pub enum StorageError {
    Unavailable,
}

/// An object store that the deployment provides.
pub trait ObjectStore {
    /// Stores bytes under a key with a privacy classification.
    fn put(&self, key: &str, bytes: &[u8], privacy_classification: &str) -> Result<ObjectReference, StorageError>;
}

} // verus!

verus! {

impl StorageError {
    /// The human-readable text of the error.
    pub fn message(&self) -> (res: String)
        ensures
            res@ == "object store unavailable"@,
    {
        "object store unavailable".to_owned()
    }
}

} // verus!
