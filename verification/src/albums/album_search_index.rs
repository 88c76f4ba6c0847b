//! The filters of an album search.
use crate::file_name::FileName;
use vstd::prelude::*;

verus! {

/// Filters of an album search. Empty lists and `None` impose nothing.
pub struct AlbumSearchQuery {
    pub text: Option<String>,
    pub exact_name: Option<String>,
    pub include_file_names: Vec<FileName>,
    pub exclude_file_names: Vec<FileName>,
    pub include_artists: Vec<FileName>,
    pub exclude_artists: Vec<FileName>,
    pub include_primary_genres: Vec<String>,
    pub exclude_primary_genres: Vec<String>,
    pub include_secondary_genres: Vec<String>,
    pub exclude_secondary_genres: Vec<String>,
    pub include_languages: Vec<String>,
    pub exclude_languages: Vec<String>,
    pub include_descriptors: Vec<String>,
    pub exclude_descriptors: Vec<String>,
    pub min_primary_genre_count: Option<usize>,
    pub min_secondary_genre_count: Option<usize>,
    pub min_descriptor_count: Option<usize>,
    pub min_release_year: Option<u32>,
    pub max_release_year: Option<u32>,
    pub include_duplicates: Option<bool>,
}

/// The two queries agree on every filter but the excluded page names.
pub open spec fn same_filters_but_excluded(a: AlbumSearchQuery, b: AlbumSearchQuery) -> bool {
    &&& a.text == b.text
    &&& a.exact_name == b.exact_name
    &&& a.include_file_names == b.include_file_names
    &&& a.include_artists == b.include_artists
    &&& a.exclude_artists == b.exclude_artists
    &&& a.include_primary_genres == b.include_primary_genres
    &&& a.exclude_primary_genres == b.exclude_primary_genres
    &&& a.include_secondary_genres == b.include_secondary_genres
    &&& a.exclude_secondary_genres == b.exclude_secondary_genres
    &&& a.include_languages == b.include_languages
    &&& a.exclude_languages == b.exclude_languages
    &&& a.include_descriptors == b.include_descriptors
    &&& a.exclude_descriptors == b.exclude_descriptors
    &&& a.min_primary_genre_count == b.min_primary_genre_count
    &&& a.min_secondary_genre_count == b.min_secondary_genre_count
    &&& a.min_descriptor_count == b.min_descriptor_count
    &&& a.min_release_year == b.min_release_year
    &&& a.max_release_year == b.max_release_year
    &&& a.include_duplicates == b.include_duplicates
}

/// The query sets no filter but, possibly, excluded page names.
pub open spec fn no_filter_but_excluded(q: AlbumSearchQuery) -> bool {
    &&& q.text is None
    &&& q.exact_name is None
    &&& q.include_file_names@.len() == 0
    &&& q.include_artists@.len() == 0
    &&& q.exclude_artists@.len() == 0
    &&& q.include_primary_genres@.len() == 0
    &&& q.exclude_primary_genres@.len() == 0
    &&& q.include_secondary_genres@.len() == 0
    &&& q.exclude_secondary_genres@.len() == 0
    &&& q.include_languages@.len() == 0
    &&& q.exclude_languages@.len() == 0
    &&& q.include_descriptors@.len() == 0
    &&& q.exclude_descriptors@.len() == 0
    &&& q.min_primary_genre_count is None
    &&& q.min_secondary_genre_count is None
    &&& q.min_descriptor_count is None
    &&& q.min_release_year is None
    &&& q.max_release_year is None
    &&& q.include_duplicates is None
}

impl AlbumSearchQuery {
    /// A query with no filter at all.
    pub fn new() -> (res: Self)
        ensures
            res.text is None,
            res.exact_name is None,
            res.include_file_names@.len() == 0,
            res.exclude_file_names@.len() == 0,
            res.include_artists@.len() == 0,
            res.exclude_artists@.len() == 0,
            res.include_primary_genres@.len() == 0,
            res.exclude_primary_genres@.len() == 0,
            res.include_secondary_genres@.len() == 0,
            res.exclude_secondary_genres@.len() == 0,
            res.include_languages@.len() == 0,
            res.exclude_languages@.len() == 0,
            res.include_descriptors@.len() == 0,
            res.exclude_descriptors@.len() == 0,
            res.min_primary_genre_count is None,
            res.min_secondary_genre_count is None,
            res.min_descriptor_count is None,
            res.min_release_year is None,
            res.max_release_year is None,
            res.include_duplicates is None,
    {
        AlbumSearchQuery {
            text: None,
            exact_name: None,
            include_file_names: Vec::new(),
            exclude_file_names: Vec::new(),
            include_artists: Vec::new(),
            exclude_artists: Vec::new(),
            include_primary_genres: Vec::new(),
            exclude_primary_genres: Vec::new(),
            include_secondary_genres: Vec::new(),
            exclude_secondary_genres: Vec::new(),
            include_languages: Vec::new(),
            exclude_languages: Vec::new(),
            include_descriptors: Vec::new(),
            exclude_descriptors: Vec::new(),
            min_primary_genre_count: None,
            min_secondary_genre_count: None,
            min_descriptor_count: None,
            min_release_year: None,
            max_release_year: None,
            include_duplicates: None,
        }
    }
}

} // verus!
