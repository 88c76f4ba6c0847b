//! The cache of generated embeddings, keyed by provider and by the hash of
//! the embedded text.
use crate::albums::embedding_provider::helpers::{spec_lower_hex, spec_sha256, get_document_id};
use crate::file_name::FileName;
use crate::text::push_str;
use vstd::prelude::*;

verus! {

/// Embeddings cached in the key-value store `K`.
pub struct EmbeddingProviderCache<K> {
    pub kv: K,
}

/// What precedes the provider and the hash in a cache key.
pub const EMBEDDING_CACHE_PREFIX: &'static str = "embedding_cache:";

impl<K> EmbeddingProviderCache<K> {
    /// The cache in the store `kv`.
    pub fn new(kv: K) -> (res: Self)
        ensures
            res.kv == kv,
    {
        Self { kv }
    }

    /// The key of the embedding of `content` by provider `provider_name`:
    /// the prefix, the provider and the SHA-256 of the content in lower-case
    /// hexadecimal, separated by `:`.
    pub fn build_key(&self, provider_name: &str, content: &str) -> (res: String)
        ensures
            res@ == EMBEDDING_CACHE_PREFIX@ + provider_name@ + ":"@ + spec_lower_hex(
                spec_sha256(content@),
            ),
    {
        let hash = get_document_id(content.to_owned());
        let mut s = String::new();
        push_str(&mut s, EMBEDDING_CACHE_PREFIX);
        push_str(&mut s, provider_name);
        push_str(&mut s, ":");
        push_str(&mut s, hash.as_str());
        proof {
            assert(s@ =~= EMBEDDING_CACHE_PREFIX@ + provider_name@ + ":"@ + spec_lower_hex(
                spec_sha256(content@),
            ));
        }
        s
    }
}

/// The pages of `input` whose embedding is not among the `cached` pages,
/// in order.
pub open spec fn uncached_of(input: Seq<FileName>, cached: Seq<Seq<char>>) -> Seq<FileName>
    decreases input.len(),
{
    if input.len() == 0 {
        Seq::empty()
    } else if cached.contains(input.last()@) {
        uncached_of(input.drop_last(), cached)
    } else {
        uncached_of(input.drop_last(), cached).push(input.last())
    }
}

/// The page names by their text.
pub open spec fn page_views(v: Seq<FileName>) -> Seq<Seq<char>> {
    v.map_values(|f: FileName| f@)
}

fn is_cached(cached: &Vec<FileName>, f: &FileName) -> (res: bool)
    ensures
        res == page_views(cached@).contains(f@),
{
    for i in 0..cached.len()
        invariant
            forall|k: int| 0 <= k < i ==> cached@[k]@ != f@,
    {
        if cached[i].same_as(f) {
            proof {
                assert(page_views(cached@)[i as int] == f@);
            }
            return true;
        }
    }
    proof {
        if page_views(cached@).contains(f@) {
            let k = choose|k: int| 0 <= k < page_views(cached@).len() && page_views(cached@)[k] == f@;
            assert(cached@[k]@ == f@);
        }
    }
    false
}

/// The pages whose embeddings must be generated: those of `input` that the
/// cache did not return, in order.
pub fn uncached_file_names(input: &Vec<FileName>, cached: &Vec<FileName>) -> (res: Vec<FileName>)
    ensures
        res@ == uncached_of(input@, page_views(cached@)),
{
    let mut res: Vec<FileName> = Vec::new();
    for i in 0..input.len()
        invariant
            res@ == uncached_of(input@.take(i as int), page_views(cached@)),
    {
        proof {
            assert(input@.take(i + 1).drop_last() =~= input@.take(i as int));
            assert(input@.take(i + 1).last() == input@[i as int]);
        }
        if !is_cached(cached, &input[i]) {
            res.push(input[i].clone());
        }
    }
    proof {
        assert(input@.take(input@.len() as int) =~= input@);
    }
    res
}

/// Pairs the pages sent for generation with the embeddings returned, the
/// first page with the first embedding and so on, up to the shorter list.
pub fn pair_generated<E>(pages: Vec<FileName>, generated: Vec<E>) -> (res: Vec<(FileName, E)>)
    ensures
        res@.len() == if pages@.len() <= generated@.len() { pages@.len() } else { generated@.len() },
        forall|i: int| 0 <= i < res@.len() ==> #[trigger] res@[i] == (pages@[i], generated@[i]),
{
    let n: usize = if pages.len() <= generated.len() { pages.len() } else { generated.len() };
    let ghost all_pages = pages@;
    let ghost all_generated = generated@;
    let mut pages = pages;
    let mut generated = generated;
    let mut res: Vec<(FileName, E)> = Vec::new();
    let mut i: usize = 0;
    while i < n
        invariant
            n <= all_pages.len(),
            n <= all_generated.len(),
            i <= n,
            pages@ == all_pages.skip(i as int),
            generated@ == all_generated.skip(i as int),
            res@.len() == i,
            forall|k: int| 0 <= k < i ==> #[trigger] res@[k] == (all_pages[k], all_generated[k]),
        decreases n - i,
    {
        let ghost p_before = pages@;
        let ghost g_before = generated@;
        let f = pages.remove(0);
        let e = generated.remove(0);
        proof {
            assert(pages@ =~= all_pages.skip(i + 1));
            assert(generated@ =~= all_generated.skip(i + 1));
            assert(f == all_pages[i as int]);
            assert(e == all_generated[i as int]);
        }
        let ghost res_before = res@;
        res.push((f, e));
        proof {
            assert forall|k: int| 0 <= k < i + 1 implies #[trigger] res@[k] == (all_pages[k], all_generated[k]) by {
                if k < i {
                    assert(res@[k] == res_before[k]);
                }
            }
        }
        i = i + 1;
    }
    res
}

} // verus!
