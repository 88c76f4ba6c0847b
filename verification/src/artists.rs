//! Artists: read models, overviews and their search records.
pub mod artist_search_index;
pub mod artist_read_model;
pub mod artist_repository;
pub mod artist_interactor;
