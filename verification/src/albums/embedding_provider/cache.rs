//! The cache of album embeddings kept per provider and album.
use crate::albums::album_read_model::AlbumReadModel;
use crate::text::push_str;
use vstd::prelude::*;

verus! {

/// Album embeddings cached in the key-value store `K` for one provider.
pub struct EmbeddingProviderCache<K> {
    pub provider_name: String,
    pub kv: K,
}

/// What the cache holds for an album: the hash of the album's description
/// and the embedding `E` computed from it.
pub struct EmbeddingProviderCacheItem<E> {
    pub hash: String,
    pub embedding: E,
}

/// What precedes the provider and the page name in a cache key.
pub const CACHE_KEY_PREFIX: &'static str = "embedding_provider_cache:";

impl<K> EmbeddingProviderCache<K> {
    /// The cache of provider `provider_name` in the store `kv`.
    pub fn new(provider_name: &str, kv: K) -> (res: Self)
        ensures
            res.provider_name@ == provider_name@,
            res.kv == kv,
    {
        Self { provider_name: provider_name.to_owned(), kv }
    }

    /// The key of an album's entry: the prefix, the provider and the
    /// album's page name, separated by `:`.
    pub fn build_key(&self, album: &AlbumReadModel) -> (res: String)
        ensures
            res@ == CACHE_KEY_PREFIX@ + self.provider_name@ + ":"@ + album.file_name@,
    {
        let mut s = String::new();
        push_str(&mut s, CACHE_KEY_PREFIX);
        push_str(&mut s, self.provider_name.as_str());
        push_str(&mut s, ":");
        push_str(&mut s, album.file_name.0.as_str());
        proof {
            assert(s@ =~= CACHE_KEY_PREFIX@ + self.provider_name@ + ":"@ + album.file_name@);
        }
        s
    }
}

/// The cached embedding, if there is an entry and it was computed from a
/// description with the given hash; a stale entry counts as none.
pub fn cached_embedding<E>(stored: Option<EmbeddingProviderCacheItem<E>>, hash: &String) -> (res: Option<E>)
    ensures
        res == match stored {
            Some(item) => if item.hash@ == hash@ {
                Some(item.embedding)
            } else {
                None
            },
            None => None,
        },
{
    match stored {
        Some(item) => {
            if item.hash == *hash {
                Some(item.embedding)
            } else {
                None
            }
        },
        None => None,
    }
}

} // verus!
