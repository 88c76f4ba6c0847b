//! Keys of the OpenAI album embedding provider.
use crate::text::push_str;
use vstd::prelude::*;

verus! {

/// What precedes a document id in the key of an OpenAI embedding.
pub const OPENAI_DOCUMENT_PREFIX: &'static str = "openai:doc:";

/// The key under which the OpenAI embedding of a document is stored.
pub fn document_kv_key(id: &str) -> (res: String)
    ensures
        res@ == OPENAI_DOCUMENT_PREFIX@ + id@,
{
    let mut s = String::new();
    push_str(&mut s, OPENAI_DOCUMENT_PREFIX);
    push_str(&mut s, id);
    s
}

/// The response of an embedding request held no embedding.
pub struct NoEmbeddings;

/// The embedding of a one-document request: the last one the response
/// holds, or an error when it holds none.
pub fn last_embedding<E>(data: Vec<E>) -> (res: Result<E, NoEmbeddings>)
    ensures
        data@.len() == 0 <==> res is Err,
        data@.len() > 0 ==> res == Ok::<E, NoEmbeddings>(data@.last()),
{
    let mut data = data;
    match data.pop() {
        Some(e) => Ok(e),
        None => Err(NoEmbeddings),
    }
}

} // verus!
