//! Verified core of a music-catalogue crawler and recommendation engine:
//! search-query construction, crawler policy, queue keys and aggregation.
pub mod text;
pub mod parse;
pub mod priority;
pub mod crawler;
pub mod embedding_provider;
pub mod file_name;
pub mod parsed;
pub mod connectors;
pub mod redisearch;
pub mod es_query;
pub mod albums;
pub mod artists;
pub mod ranking;
pub mod lexical;
pub mod item_with_factor;
