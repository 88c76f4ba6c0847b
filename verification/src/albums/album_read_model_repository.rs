//! The read-model repository's vocabulary: the album parts it stores, the
//! aggregates it computes and the filters of its search.
pub use crate::albums::album_read_model::{AlbumReadModelArtist, AlbumReadModelCredit};
pub use crate::albums::album_repository::{GenreAggregate, ItemAndCount};
use crate::file_name::FileName;
use vstd::prelude::*;

verus! {

/// Filters of a search of the read-model repository. Empty lists and
/// `None` impose nothing; artists are given by page name.
pub struct AlbumSearchQuery {
    pub exclude_file_names: Vec<FileName>,
    pub include_artists: Vec<String>,
    pub exclude_artists: Vec<String>,
    pub include_primary_genres: Vec<String>,
    pub exclude_primary_genres: Vec<String>,
    pub include_secondary_genres: Vec<String>,
    pub exclude_secondary_genres: Vec<String>,
    pub include_languages: Vec<String>,
    pub exclude_languages: Vec<String>,
    pub include_descriptors: Vec<String>,
    pub min_primary_genre_count: Option<usize>,
    pub min_secondary_genre_count: Option<usize>,
    pub min_descriptor_count: Option<usize>,
    pub min_release_year: Option<u32>,
    pub max_release_year: Option<u32>,
}

impl AlbumSearchQuery {
    /// A query with no filter at all.
    pub fn new() -> (res: Self)
        ensures
            res.exclude_file_names@.len() == 0,
            res.include_artists@.len() == 0,
            res.exclude_artists@.len() == 0,
            res.include_primary_genres@.len() == 0,
            res.exclude_primary_genres@.len() == 0,
            res.include_secondary_genres@.len() == 0,
            res.exclude_secondary_genres@.len() == 0,
            res.include_languages@.len() == 0,
            res.exclude_languages@.len() == 0,
            res.include_descriptors@.len() == 0,
            res.min_primary_genre_count is None,
            res.min_secondary_genre_count is None,
            res.min_descriptor_count is None,
            res.min_release_year is None,
            res.max_release_year is None,
    {
        AlbumSearchQuery {
            exclude_file_names: Vec::new(),
            include_artists: Vec::new(),
            exclude_artists: Vec::new(),
            include_primary_genres: Vec::new(),
            exclude_primary_genres: Vec::new(),
            include_secondary_genres: Vec::new(),
            exclude_secondary_genres: Vec::new(),
            include_languages: Vec::new(),
            exclude_languages: Vec::new(),
            include_descriptors: Vec::new(),
            min_primary_genre_count: None,
            min_secondary_genre_count: None,
            min_descriptor_count: None,
            min_release_year: None,
            max_release_year: None,
        }
    }
}

} // verus!
