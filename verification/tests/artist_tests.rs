use lute::albums::album_read_model::{AlbumReadModel, AlbumReadModelArtist, CalendarDate};
use lute::albums::artists::{ArtistOverviewCredit, ArtistOverviewCreditAlbum};
use lute::artists::artist_interactor::albums_to_fetch;
use lute::artists::artist_read_model::{
    ArtistAlbumSummary, ArtistOverview, ArtistReadModel, ArtistReadModelCredit,
};
use lute::artists::artist_repository::{
    ArtistCreditRow, ArtistRepository, assemble_artists, group_album_file_names, group_credits,
};
use lute::artists::artist_search_index::{
    ArtistSearchIndex, ArtistSearchQuery, ArtistSearchRecord, get_min_year,
};
use lute::embedding_provider::embedding_provider_event_subscribers::is_embeddable_artist;
use lute::es_query::EsQuery;
use lute::file_name::FileName;
use lute::item_with_factor::ItemWithFactor;

fn fname(s: &str) -> FileName {
    FileName(s.to_string())
}

fn strings(v: &[&str]) -> Vec<String> {
    v.iter().map(|s| s.to_string()).collect()
}

fn album(file: &str, year: Option<i32>, rating_count: u32, genres: &[&str]) -> AlbumReadModel {
    AlbumReadModel {
        name: file.to_string(),
        file_name: fname(file),
        rating_count,
        artists: vec![AlbumReadModelArtist { name: "X".to_string(), file_name: fname("artist/x/") }],
        primary_genres: strings(genres),
        secondary_genres: vec![],
        descriptors: strings(&["dense"]),
        release_date: year.map(|y| CalendarDate { year: y, month: 1, day: 1 }),
        languages: vec![],
        credits: vec![],
        duplicate_of: None,
        duplicates: vec![],
        cover_image_url: None,
    }
}

fn factor_of(items: &[ItemWithFactor], item: &str) -> Option<u32> {
    items.iter().find(|i| i.item == item).map(|i| i.factor)
}

#[test]
fn album_summary_counts() {
    let a = album("a/", Some(1994), 10, &["Rock", "Jazz"]);
    let b = album("b/", None, 5, &["Rock"]);
    let c = album("c/", Some(1987), 1, &[]);
    let summary = ArtistAlbumSummary::from_albums(vec![&a, &b, &c]);
    assert_eq!(summary.album_count, 3);
    assert_eq!(summary.total_rating_count, 16);
    assert_eq!(summary.min_year, 1987);
    assert_eq!(summary.max_year, 1994);
    assert_eq!(factor_of(&summary.primary_genres, "Rock"), Some(2));
    assert_eq!(factor_of(&summary.primary_genres, "Jazz"), Some(1));
    assert_eq!(factor_of(&summary.descriptors, "dense"), Some(3));
    let empty = ArtistAlbumSummary::from_albums(vec![]);
    assert_eq!((empty.album_count, empty.min_year, empty.max_year), (0, 0, 0));
}

#[test]
fn credited_only_artists_need_five_albums_for_an_embedding() {
    let albums: Vec<AlbumReadModel> = (0..5).map(|i| album(&format!("c{}/", i), None, 1, &[])).collect();
    let credits = |n: usize| {
        (0..n)
            .map(|i| ArtistReadModelCredit { album_file_name: fname(&format!("c{}/", i)), roles: strings(&["mixing"]) })
            .collect::<Vec<_>>()
    };
    let artist = |n: usize| ArtistReadModel {
        name: "N".to_string(),
        file_name: fname("artist/n/"),
        album_file_names: vec![],
        credits: credits(n),
    };
    assert!(!is_embeddable_artist(&ArtistOverview::new(artist(4), &albums)));
    assert!(is_embeddable_artist(&ArtistOverview::new(artist(5), &albums)));
}

#[test]
fn overview_and_search_record() {
    let albums = vec![
        album("own/", Some(2001), 7, &["Rock"]),
        album("credited/", Some(1995), 3, &["Pop"]),
    ];
    let artist = ArtistReadModel {
        name: "Múm".to_string(),
        file_name: fname("artist/mum/"),
        album_file_names: vec![fname("own/"), fname("unknown/")],
        credits: vec![ArtistReadModelCredit {
            album_file_name: fname("credited/"),
            roles: strings(&["remix", "producer"]),
        }],
    };
    assert_eq!(artist.ascii_name(), "Mum");
    let overview = ArtistOverview::new(artist, &albums);
    assert_eq!(overview.album_summary.album_count, 1);
    assert_eq!(overview.credited_album_summary.album_count, 1);
    assert_eq!(factor_of(&overview.credit_roles, "remix"), Some(1));
    assert_eq!(overview.ascii_name(), "Mum");
    assert!(is_embeddable_artist(&overview));
    let record = ArtistSearchRecord::from_overview(overview);
    assert_eq!(record.file_name, "artist/mum/");
    assert_eq!(record.total_rating_count, 10);
    assert_eq!(record.min_year, 1995);
    assert_eq!(record.max_year, 2001);
    assert_eq!(record.album_count, 1);
    assert_eq!(record.primary_genres, strings(&["Rock"]));
    assert_eq!(record.creditted_primary_genres, strings(&["Pop"]));
}

#[test]
fn min_year_ignores_zero() {
    assert_eq!(get_min_year(0, 1990), 1990);
    assert_eq!(get_min_year(1980, 0), 1980);
    assert_eq!(get_min_year(1980, 1990), 1980);
    assert_eq!(get_min_year(0, 0), 0);
}

#[test]
fn artist_search_query() {
    let q = ArtistSearchQuery {
        text: None,
        exclude_file_names: vec![],
        include_primary_genres: vec![],
        exclude_primary_genres: vec![],
        include_secondary_genres: vec![],
        exclude_secondary_genres: vec![],
        include_credit_roles: vec![],
        exclude_credit_roles: vec![],
        active_years_range: None,
        min_album_count: None,
    };
    assert!(matches!(q.to_es_query(), EsQuery::MatchAll));
    let index = ArtistSearchIndex::new(());
    assert_eq!(index.index_name, "artists");
}

#[test]
fn repository_grouping() {
    let rows = vec![
        (fname("a1/"), fname("artist/x/")),
        (fname("a2/"), fname("artist/y/")),
        (fname("a3/"), fname("artist/x/")),
    ];
    let (keys, groups) = group_album_file_names(&rows);
    assert_eq!(keys.len(), 2);
    assert_eq!(keys[0].0, "artist/x/");
    let g: Vec<&str> = groups[0].iter().map(|f| f.0.as_str()).collect();
    assert_eq!(g, vec!["a1/", "a3/"]);
    let credit_rows = vec![
        ArtistCreditRow { artist_file_name: fname("artist/x/"), album_file_name: fname("c1/"), role: "mixing".to_string() },
        ArtistCreditRow { artist_file_name: fname("artist/x/"), album_file_name: fname("c1/"), role: "mastering".to_string() },
        ArtistCreditRow { artist_file_name: fname("artist/z/"), album_file_name: fname("c2/"), role: "vocals".to_string() },
    ];
    let (ckeys, cgroups) = group_credits(&credit_rows);
    assert_eq!(ckeys.len(), 2);
    assert_eq!(cgroups[0].len(), 1);
    assert_eq!(cgroups[0][0].roles, strings(&["mixing", "mastering"]));
    let artists = assemble_artists(
        &vec![(fname("artist/x/"), "X".to_string()), (fname("artist/w/"), "W".to_string())],
        &keys,
        &groups,
        &ckeys,
        &cgroups,
    );
    assert_eq!(artists[0].album_file_names.len(), 2);
    assert_eq!(artists[0].credits.len(), 1);
    assert!(artists[1].album_file_names.is_empty() && artists[1].credits.is_empty());
    let needed = albums_to_fetch(&artists);
    let mut names: Vec<&str> = needed.iter().map(|f| f.0.as_str()).collect();
    names.sort();
    assert_eq!(names, vec!["a1/", "a3/", "c1/"]);
    let repo = ArtistRepository::new(0u8);
    assert_eq!(repo.sqlite_connection, 0u8);
}

#[test]
fn overview_credits_hold_their_album() {
    let credit = ArtistOverviewCredit {
        album: ArtistOverviewCreditAlbum { name: "N".to_string(), file_name: fname("n/") },
        roles: strings(&["guitar"]),
    };
    assert_eq!(credit.album.file_name.0, "n/");
    assert_eq!(credit.roles.len(), 1);
}
