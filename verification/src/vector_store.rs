//! Vector stores: handles to the engine's nearest-neighbour storage.
//!
//! The vector payloads themselves are floating-point data and their
//! similarity search is the engine's own numeric affair, so neither is
//! modelled here; the handle and its lifecycle are.

use vstd::prelude::*;

verus! {

/// Represents a vector store: client-side, the handle and its owning
/// transaction.
#[derive(Debug, Clone)]
pub struct VectorStore {
    /// The vector store ID.
    pub id: String,
    /// The transaction ID associated with the vector store.
    pub transaction_id: String,
}

} // verus!
