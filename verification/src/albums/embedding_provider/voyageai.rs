//! The VoyageAI album embedding provider and its keys.
use crate::text::push_str;
use vstd::prelude::*;

verus! {

/// The VoyageAI album embedding provider, caching in the store `K`.
pub struct VoyageAIAlbumEmbeddingProvider<K> {
    pub kv: K,
}

impl<K> VoyageAIAlbumEmbeddingProvider<K> {
    /// A provider caching in `kv`.
    pub fn new(kv: K) -> (res: Self)
        ensures
            res.kv == kv,
    {
        Self { kv }
    }
}

/// What precedes a document id in the key of a VoyageAI embedding.
pub const VOYAGEAI_DOCUMENT_PREFIX: &'static str = "voyageai:doc:";

/// The key under which the VoyageAI embedding of a document is stored.
pub fn document_kv_key(id: &str) -> (res: String)
    ensures
        res@ == VOYAGEAI_DOCUMENT_PREFIX@ + id@,
{
    let mut s = String::new();
    push_str(&mut s, VOYAGEAI_DOCUMENT_PREFIX);
    push_str(&mut s, id);
    s
}

} // verus!
