//! Albums: read models, search queries and their aggregation.
pub mod album_search_index;
pub mod redis_album_search_index;
pub mod es_album_search_index;
pub mod album_read_model;
pub mod album_collection_summary;
pub mod album_repository;
pub mod album_read_model_repository;
pub mod redis_album_repository;
pub mod embedding_provider;
pub mod artists;
pub mod album_interactor;
pub mod sqlite_album_repository;
pub mod album_event_subscribers;
