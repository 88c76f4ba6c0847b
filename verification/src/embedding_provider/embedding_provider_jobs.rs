//! The payloads of the embedding jobs.
use crate::file_name::FileName;
use vstd::prelude::*;

verus! {

/// A request to embed `body`, the description of a page, with a provider.
pub struct EmbeddingGenerationJobPayload {
    pub provider_name: String,
    pub file_name: FileName,
    pub body: String,
}

/// A request to delete the embedding stored under `key` for a page.
pub struct EmbeddingDeletionJobPayload {
    pub file_name: FileName,
    pub key: String,
}

} // verus!
