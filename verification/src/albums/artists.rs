//! An artist's credits as the album side presents them.
use crate::file_name::FileName;
use vstd::prelude::*;

verus! {

/// The album of a credit, by name and page name.
pub struct ArtistOverviewCreditAlbum {
    pub name: String,
    pub file_name: FileName,
}

/// A credit of an artist: the album and the roles held on it.
pub struct ArtistOverviewCredit {
    pub album: ArtistOverviewCreditAlbum,
    pub roles: Vec<String>,
}

} // verus!
