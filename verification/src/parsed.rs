//! What the page parser extracts from an album page, without the ratings
//! (floating-point figures that the application carries beside it).
use crate::albums::album_read_model::CalendarDate;
use crate::file_name::FileName;
use vstd::prelude::*;

verus! {

/// An artist as a parsed page refers to it.
pub struct ParsedArtistReference {
    pub name: String,
    pub file_name: FileName,
}

/// A credit on a parsed album: an artist and the roles it had.
pub struct ParsedCredit {
    pub artist: ParsedArtistReference,
    pub roles: Vec<String>,
}

/// A track of a parsed album.
pub struct ParsedTrack {
    pub name: String,
    pub duration_seconds: Option<u32>,
    pub position: Option<String>,
}

/// A parsed album page.
pub struct ParsedAlbum {
    pub name: String,
    pub rating_count: u32,
    pub artists: Vec<ParsedArtistReference>,
    pub primary_genres: Vec<String>,
    pub secondary_genres: Vec<String>,
    pub descriptors: Vec<String>,
    pub tracks: Vec<ParsedTrack>,
    pub release_date: Option<CalendarDate>,
    pub languages: Vec<String>,
    pub credits: Vec<ParsedCredit>,
    pub cover_image_url: Option<String>,
}

} // verus!
