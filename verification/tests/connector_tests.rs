use lute::albums::album_collection_summary::AlbumCollectionSummary;
use lute::albums::album_read_model::{
    AlbumReadModel, AlbumReadModelArtist, CalendarDate, release_date_from_text,
};
use lute::albums::redis_album_search_index::{
    SearchRowError, SearchRowFields, SearchRowLists, album_from_search_row,
};
use lute::artists::artist_read_model::{ArtistAlbumSummary, ArtistOverview};
use lute::connectors::album_rows::{AlbumMessage, ParsedAlbumEvent, album_rows};
use lute::connectors::graph_updates::{GraphUpdate, album_graph_updates};
use lute::embedding_provider::embedding_provider_event_subscribers::select_embeddable_artists;
use lute::albums::embedding_provider::openai::last_embedding;
use lute::embedding_provider::embedding_provider_interactor::{pair_generated, uncached_file_names};
use lute::file_name::FileName;
use lute::parsed::{ParsedAlbum, ParsedArtistReference, ParsedCredit, ParsedTrack};

fn fname(s: &str) -> FileName {
    FileName(s.to_string())
}

fn strings(v: &[&str]) -> Vec<String> {
    v.iter().map(|s| s.to_string()).collect()
}

fn artist(name: &str, file: &str) -> ParsedArtistReference {
    ParsedArtistReference { name: name.to_string(), file_name: fname(file) }
}

fn message(name: &str, date: Option<&str>) -> AlbumMessage {
    AlbumMessage {
        name: name.to_string(),
        rating_count: 42,
        artists: vec![artist("Björk", "artist/bjork/")],
        primary_genres: strings(&["Art Pop"]),
        secondary_genres: strings(&["Glitch"]),
        descriptors: strings(&["cold"]),
        tracks: vec![ParsedTrack { name: "Hidden Place".to_string(), duration_seconds: Some(328), position: Some("1".to_string()) }],
        release_date: date.map(|d| d.to_string()),
        languages: strings(&["English"]),
        credits: vec![ParsedCredit { artist: artist("Matmos (duo)", "artist/matmos/"), roles: strings(&["programming", "producer"]) }],
    }
}

#[test]
fn release_dates_read_as_chrono_reads_them() {
    assert!(release_date_from_text("2001-08-27") == Some(CalendarDate { year: 2001, month: 8, day: 27 }));
    assert!(release_date_from_text("2001-02-30") == None);
    assert!(release_date_from_text("August 2001") == None);
    assert!(release_date_from_text("") == None);
}

#[test]
fn album_rows_keep_the_last_event_per_page() {
    let batch = vec![
        ParsedAlbumEvent { file_name: "release/album/bjork/vespertine/".to_string(), album: message("Vespertine (old)", Some("2001-08-27")) },
        ParsedAlbumEvent { file_name: "release/album/bjork/homogenic/".to_string(), album: message("Homogenic", Some("not a date")) },
        ParsedAlbumEvent { file_name: "release/album/bjork/vespertine/".to_string(), album: message("Vespertine", Some("2001-08-27")) },
    ];
    let rows = album_rows(&batch);
    assert_eq!(rows.albums.len(), 2);
    let v = rows.albums.iter().find(|g| g.album.file_name == "release/album/bjork/vespertine/").unwrap();
    assert_eq!(v.album.name, "Vespertine");
    assert_eq!(v.album.rating_count, 42);
    assert!(v.album.release_date == Some(CalendarDate { year: 2001, month: 8, day: 27 }));
    assert_eq!(v.artist_file_names, strings(&["artist/bjork/"]));
    assert_eq!(v.tracks.len(), 1);
    assert_eq!(v.tracks[0].duration_seconds, Some(328));
    assert_eq!(v.credits[0].artist_file_name, "artist/matmos/");
    assert_eq!(v.credits[0].roles, strings(&["programming", "producer"]));
    let h = rows.albums.iter().find(|g| g.album.file_name == "release/album/bjork/homogenic/").unwrap();
    assert!(h.album.release_date == None);
    assert_eq!(rows.artists.len(), 2);
    let m = rows.artists.iter().find(|a| a.file_name == "artist/matmos/").unwrap();
    assert_eq!(m.name, "Matmos (duo)");
}

#[test]
fn artist_rows_keep_the_last_name() {
    let mut first = message("A", None);
    first.artists = vec![artist("Old Name", "artist/x/")];
    first.credits = vec![];
    let mut second = message("B", None);
    second.artists = vec![artist("New Name", "artist/x/")];
    second.credits = vec![ParsedCredit { artist: artist("Credited Name", "artist/x/"), roles: strings(&["mixing"]) }];
    let rows = album_rows(&vec![
        ParsedAlbumEvent { file_name: "release/album/a/".to_string(), album: first },
        ParsedAlbumEvent { file_name: "release/album/b/".to_string(), album: second },
    ]);
    assert_eq!(rows.artists.len(), 1);
    assert_eq!(rows.artists[0].name, "Credited Name");
    assert_eq!(rows.albums.len(), 2);
}

#[test]
fn graph_updates_in_write_order() {
    let updates = album_graph_updates(&"release/album/bjork/vespertine/".to_string(), &message("Vespertine", Some("2001-08-27")))
        .ok()
        .unwrap();
    assert_eq!(updates.len(), 1 + 2 + 4 + 2 + 2 + 2);
    match &updates[0] {
        GraphUpdate::MergeAlbum { file_name, name, rating_count, release_date } => {
            assert_eq!(file_name, "release/album/bjork/vespertine/");
            assert_eq!(name, "Vespertine");
            assert_eq!(*rating_count, 42);
            assert!(*release_date == Some(CalendarDate { year: 2001, month: 8, day: 27 }));
        }
        _ => panic!("the album comes first"),
    }
    assert!(matches!(&updates[2], GraphUpdate::LinkCreated { artist_file_name, .. } if artist_file_name == "artist/bjork/"));
    assert!(matches!(&updates[6], GraphUpdate::LinkCredited { role, .. } if role == "producer"));
    assert!(matches!(&updates[7], GraphUpdate::MergeGenre { name } if name == "Art Pop"));
    assert!(matches!(&updates[10], GraphUpdate::LinkSecondaryGenre { genre, .. } if genre == "Glitch"));
    assert!(matches!(&updates[12], GraphUpdate::LinkDescriptor { descriptor, .. } if descriptor == "cold"));
    let undated = album_graph_updates(&"release/album/x/".to_string(), &message("X", None)).ok().unwrap();
    assert!(matches!(&undated[0], GraphUpdate::MergeAlbum { release_date: None, .. }));
    assert!(album_graph_updates(&"release/album/x/".to_string(), &message("X", Some("2001-13-01"))).is_err());
}

fn empty_fields() -> SearchRowFields {
    SearchRowFields {
        name: None,
        file_name: None,
        rating: None,
        rating_count: None,
        artists: None,
        primary_genres: None,
        secondary_genres: None,
        descriptors: None,
        tracks: None,
        release_date: None,
        languages: None,
        credits: None,
        duplicate_of: None,
        duplicates: None,
        cover_image_url: None,
    }
}

fn no_lists() -> SearchRowLists {
    SearchRowLists {
        artists: None,
        primary_genres: None,
        secondary_genres: None,
        descriptors: None,
        languages: None,
        credits: None,
        duplicates: None,
    }
}

#[test]
fn search_rows_become_albums() {
    let mut fields = empty_fields();
    fields.name = Some("Vespertine".to_string());
    fields.file_name = Some("release/album/bjork/vespertine/".to_string());
    fields.rating_count = Some("1234".to_string());
    fields.release_date = Some("2001-08-27".to_string());
    fields.duplicate_of = Some("".to_string());
    fields.cover_image_url = Some("https://e.com/c.jpg".to_string());
    let mut lists = no_lists();
    lists.primary_genres = Some(strings(&["Art Pop"]));
    lists.artists = Some(vec![AlbumReadModelArtist { name: "Björk".to_string(), file_name: fname("artist/bjork/") }]);
    let a = album_from_search_row(&fields, lists).ok().unwrap();
    assert_eq!(a.name, "Vespertine");
    assert_eq!(a.file_name.0, "release/album/bjork/vespertine/");
    assert_eq!(a.rating_count, 1234);
    assert!(a.release_date == Some(CalendarDate { year: 2001, month: 8, day: 27 }));
    assert!(a.duplicate_of.is_none());
    assert_eq!(a.cover_image_url, Some("https://e.com/c.jpg".to_string()));
    assert_eq!(a.primary_genres, strings(&["Art Pop"]));
    assert_eq!(a.artists.len(), 1);
    assert!(a.secondary_genres.is_empty());

    let d = album_from_search_row(&empty_fields(), no_lists()).ok().unwrap();
    assert_eq!(d.name, "");
    assert_eq!(d.rating_count, 0);
    assert!(d.release_date.is_none());

    let mut bad_count = empty_fields();
    bad_count.rating_count = Some("many".to_string());
    bad_count.release_date = Some("never".to_string());
    assert!(matches!(album_from_search_row(&bad_count, no_lists()), Err(SearchRowError::InvalidRatingCount)));
    let mut bad_date = empty_fields();
    bad_date.release_date = Some("never".to_string());
    assert!(matches!(album_from_search_row(&bad_date, no_lists()), Err(SearchRowError::InvalidReleaseDate)));
}

#[test]
fn parsed_albums_become_read_models() {
    let parsed = ParsedAlbum {
        name: "Vespertine".to_string(),
        rating_count: 9,
        artists: vec![artist("Björk", "artist/bjork/")],
        primary_genres: strings(&["Art Pop"]),
        secondary_genres: vec![],
        descriptors: strings(&["cold"]),
        tracks: vec![],
        release_date: Some(CalendarDate { year: 2001, month: 8, day: 27 }),
        languages: strings(&["English"]),
        credits: vec![ParsedCredit { artist: artist("Matmos", "artist/matmos/"), roles: strings(&["programming"]) }],
        cover_image_url: Some("u".to_string()),
    };
    let a = AlbumReadModel::from_parsed_album(&fname("release/album/bjork/vespertine/"), parsed);
    assert_eq!(a.name, "Vespertine");
    assert_eq!(a.file_name.0, "release/album/bjork/vespertine/");
    assert_eq!(a.rating_count, 9);
    assert_eq!(a.artists[0].name, "Björk");
    assert_eq!(a.artists[0].file_name.0, "artist/bjork/");
    assert_eq!(a.credits[0].artist.file_name.0, "artist/matmos/");
    assert_eq!(a.credits[0].roles, strings(&["programming"]));
    assert!(a.duplicates.is_empty());
    assert!(a.duplicate_of.is_none());
    assert_eq!(a.cover_image_url, Some("u".to_string()));
}

fn summary(album_count: u32) -> ArtistAlbumSummary {
    ArtistAlbumSummary {
        album_count,
        total_rating_count: 0,
        min_year: 0,
        max_year: 0,
        primary_genres: vec![],
        secondary_genres: vec![],
        descriptors: vec![],
    }
}

fn overview(name: &str, own: u32, credited: u32) -> ArtistOverview {
    ArtistOverview {
        name: name.to_string(),
        file_name: fname(name),
        credit_roles: vec![],
        album_summary: summary(own),
        credited_album_summary: summary(credited),
    }
}

#[test]
fn embeddable_artists_are_kept_in_order() {
    let kept = select_embeddable_artists(vec![
        overview("a", 1, 0),
        overview("b", 0, 4),
        overview("c", 0, 5),
        overview("d", 2, 9),
    ]);
    let names: Vec<&str> = kept.iter().map(|o| o.name.as_str()).collect();
    assert_eq!(names, vec!["a", "c", "d"]);
}

#[test]
fn collection_summary_counts_large_factors_per_item() {
    let a = AlbumReadModel {
        name: "A".to_string(),
        file_name: fname("release/album/a/"),
        rating_count: 1,
        artists: vec![],
        primary_genres: strings(&["Rock", "Jazz"]),
        secondary_genres: vec![],
        descriptors: vec![],
        release_date: None,
        languages: vec![],
        credits: vec![],
        duplicate_of: None,
        duplicates: vec![],
        cover_image_url: None,
    };
    let s = AlbumCollectionSummary::new(vec![a], vec![(fname("release/album/a/"), 3_000_000_000)]);
    assert_eq!(s.primary_genres.len(), 2);
    assert!(s.primary_genres.iter().all(|g| g.factor == 3_000_000_000));
}

fn read_model() -> AlbumReadModel {
    AlbumReadModel {
        name: "Vespertine".to_string(),
        file_name: fname("release/album/bjork/vespertine/"),
        rating_count: 9,
        artists: vec![AlbumReadModelArtist { name: "Björk".to_string(), file_name: fname("artist/bjork/") }],
        primary_genres: strings(&["Art Pop"]),
        secondary_genres: strings(&["Glitch"]),
        descriptors: strings(&["cold"]),
        release_date: Some(CalendarDate { year: 2001, month: 8, day: 27 }),
        languages: strings(&["English"]),
        credits: vec![lute::albums::album_read_model::AlbumReadModelCredit {
            artist: AlbumReadModelArtist { name: "Matmos".to_string(), file_name: fname("artist/matmos/") },
            roles: strings(&["programming"]),
        }],
        duplicate_of: None,
        duplicates: vec![],
        cover_image_url: Some("u".to_string()),
    }
}

#[test]
fn read_model_to_parsed_album_and_back() {
    let parsed = ParsedAlbum::from_read_model(read_model());
    assert_eq!(parsed.name, "Vespertine");
    assert_eq!(parsed.artists[0].file_name.0, "artist/bjork/");
    assert_eq!(parsed.credits[0].roles, strings(&["programming"]));
    assert!(parsed.tracks.is_empty());
    let back = AlbumReadModel::from_parsed_album(&fname("release/album/bjork/vespertine/"), parsed);
    let a = read_model();
    assert_eq!(back.name, a.name);
    assert_eq!(back.file_name.0, a.file_name.0);
    assert_eq!(back.rating_count, a.rating_count);
    assert_eq!(back.artists[0].name, a.artists[0].name);
    assert_eq!(back.primary_genres, a.primary_genres);
    assert_eq!(back.secondary_genres, a.secondary_genres);
    assert_eq!(back.descriptors, a.descriptors);
    assert!(back.release_date == a.release_date);
    assert_eq!(back.languages, a.languages);
    assert_eq!(back.credits[0].artist.file_name.0, a.credits[0].artist.file_name.0);
    assert_eq!(back.credits[0].roles, a.credits[0].roles);
    assert!(back.duplicate_of.is_none() && back.duplicates.is_empty());
    assert_eq!(back.cover_image_url, a.cover_image_url);
}

#[test]
fn uncached_pages_in_order() {
    let input = vec![fname("a/"), fname("b/"), fname("c/"), fname("d/")];
    let cached = vec![fname("c/"), fname("a/")];
    let names: Vec<String> = uncached_file_names(&input, &cached).into_iter().map(|f| f.0).collect();
    assert_eq!(names, strings(&["b/", "d/"]));
}

#[test]
fn generated_embeddings_pair_up_to_the_shorter_list() {
    let pairs = pair_generated(vec![fname("a/"), fname("b/"), fname("c/")], vec![vec![0.5f32], vec![1.5f32]]);
    assert_eq!(pairs.len(), 2);
    assert_eq!(pairs[0].0 .0, "a/");
    assert_eq!(pairs[1].1, vec![1.5f32]);
    let fewer_pages = pair_generated(vec![fname("a/")], vec![1u8, 2u8]);
    assert_eq!(fewer_pages.len(), 1);
    assert_eq!(fewer_pages[0].1, 1u8);
}

#[test]
fn the_last_embedding_of_a_response() {
    assert_eq!(last_embedding(vec![vec![1.0f32], vec![2.0f32]]).ok(), Some(vec![2.0f32]));
    assert!(last_embedding::<Vec<f32>>(vec![]).is_err());
}
