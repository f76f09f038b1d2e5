use vstd::prelude::*;

verus! {

/// Why a lookup in a vector store failed.
#[derive(Debug)]
pub enum VectorStoreError {
    /// The embedding of the query failed.
    EmbeddingError(String),
    /// The store itself failed.
    DatastoreError(String),
    /// A document had no id.
    MissingIdError(String),
}

} // verus!
