//! Album embedding providers: the documents they embed, their cache keys
//! and the one-hot encoding of an album's tags.
pub mod helpers;
pub mod cache;
pub mod onehot;
pub mod openai;
pub mod voyageai;
