use lute::albums::album_collection_summary::AlbumCollectionSummary;
use lute::albums::album_interactor::{
    duplicate_link, eq_ignore_ascii_case, plan_duplicates, related_artist_file_names,
    similarity_filters,
};
use lute::albums::album_read_model::{
    AlbumReadModel, AlbumReadModelArtist, AlbumReadModelCredit, CalendarDate,
};
use lute::albums::album_read_model_repository::AlbumSearchQuery as ReadModelQuery;
use lute::albums::album_repository::{ItemAndCount, check_all_found};
use lute::albums::album_search_index::AlbumSearchQuery;
use lute::albums::es_album_search_index::EsAlbumSearchIndex;
use lute::albums::redis_album_repository::{
    RowError, album_key, item_and_count_from_row, merge_genre_aggregates, parse_item_rows,
    rank_by_count,
};
use lute::albums::redis_album_search_index::{
    RedisAlbumReadModel, RedisAlbumReadModelArtist, embedding_json_key, embedding_json_path,
    embedding_similarity_ft_query, needs_album_root, redis_key,
};
use std::collections::HashMap;
use lute::albums::redis_album_search_index::{FieldKind, get_schema};
use lute::albums::sqlite_album_repository::{
    AlbumEntity, AlbumParts, assemble_albums,
    AlbumDuplication, CreditRow, DuplicationRow, SqliteAlbumRepository, duplication_fields,
    find_album_credits, find_album_duplication,
};
use lute::es_query::EsQuery;
use lute::file_name::FileName;
use lute::item_with_factor::ItemWithFactor;

fn fname(s: &str) -> FileName {
    FileName(s.to_string())
}

fn strings(v: &[&str]) -> Vec<String> {
    v.iter().map(|s| s.to_string()).collect()
}

fn album(file: &str, name: &str, rating_count: u32) -> AlbumReadModel {
    AlbumReadModel {
        name: name.to_string(),
        file_name: fname(file),
        rating_count,
        artists: vec![AlbumReadModelArtist { name: "Artist".to_string(), file_name: fname("artist/a/") }],
        primary_genres: strings(&["Rock"]),
        secondary_genres: strings(&["Pop"]),
        descriptors: strings(&["melodic"]),
        release_date: Some(CalendarDate { year: 1999, month: 3, day: 7 }),
        languages: strings(&["English"]),
        credits: vec![],
        duplicate_of: None,
        duplicates: vec![],
        cover_image_url: None,
    }
}

fn factor_of(items: &[ItemWithFactor], item: &str) -> Option<u32> {
    items.iter().find(|i| i.item == item).map(|i| i.factor)
}

#[test]
fn ft_query_of_empty_search_excludes_duplicates() {
    let q = AlbumSearchQuery::new();
    assert_eq!(q.to_ft_search_query(), "@is_duplicate:[0, 0]");
}

#[test]
fn ft_query_with_filters() {
    let mut q = AlbumSearchQuery::new();
    q.text = Some("ok computer".to_string());
    q.include_primary_genres = strings(&["Art Rock", "Pop"]);
    q.exclude_file_names = vec![fname("release/album/x/")];
    q.min_release_year = Some(1990);
    q.include_duplicates = Some(true);
    assert_eq!(
        q.to_ft_search_query(),
        "(ok computer) @release_year:[1990, +inf] @primary_genre:{Art\\ Rock|Pop} -@file_name:{release\\/album\\/x\\/}"
    );
}

#[test]
fn read_model_ft_query() {
    let mut q = ReadModelQuery::new();
    assert_eq!(q.to_ft_search_query(), "");
    q.min_primary_genre_count = Some(1);
    q.max_release_year = Some(2000);
    q.exclude_languages = strings(&["English"]);
    assert_eq!(
        q.to_ft_search_query(),
        "@primary_genre_count:[1, +inf] @release_year:[-inf, 2000] -@language:{English}"
    );
}

#[test]
fn es_query_without_filters_matches_all() {
    let q = AlbumSearchQuery::new();
    assert!(matches!(q.to_es_query(), EsQuery::MatchAll));
    let mut q = AlbumSearchQuery::new();
    q.include_languages = strings(&["French"]);
    match q.to_es_query() {
        EsQuery::Bool { must, must_not } => {
            assert_eq!(must.len(), 1);
            assert!(must_not.len() <= 1);
        }
        EsQuery::MatchAll => panic!("a language filter was given"),
    }
    let index = EsAlbumSearchIndex::new(());
    assert_eq!(index.index_name, "albums");
}

#[test]
fn collection_summary_weights_features() {
    let a = album("release/album/a/", "A", 10);
    let mut b = album("release/album/b/", "B", 5);
    b.primary_genres = strings(&["Rock", "Jazz"]);
    b.release_date = Some(CalendarDate { year: 2004, month: 1, day: 1 });
    let summary = AlbumCollectionSummary::new(
        vec![a, b],
        vec![(fname("release/album/a/"), 3), (fname("release/album/b/"), 2), (fname("missing/"), 9)],
    );
    assert_eq!(factor_of(&summary.primary_genres, "Rock"), Some(5));
    assert_eq!(factor_of(&summary.primary_genres, "Jazz"), Some(2));
    assert_eq!(summary.primary_genres[0].item, "Rock");
    assert_eq!(factor_of(&summary.years, "1999"), Some(3));
    assert_eq!(factor_of(&summary.years, "2004"), Some(2));
    assert_eq!(factor_of(&summary.decades, "1990"), Some(3));
    assert_eq!(factor_of(&summary.decades, "2000"), Some(2));
    assert_eq!(factor_of(&summary.artists, "Artist"), Some(5));
    assert_eq!(summary.artists.len(), 1);
}

#[test]
fn genre_aggregates_merge_and_rank() {
    let primary = vec![
        ItemAndCount { name: "Rock".to_string(), count: 3 },
        ItemAndCount { name: "Jazz".to_string(), count: 10 },
    ];
    let secondary = vec![
        ItemAndCount { name: "Rock".to_string(), count: 9 },
        ItemAndCount { name: "Pop".to_string(), count: 1 },
    ];
    let merged = merge_genre_aggregates(&primary, &secondary);
    assert_eq!(merged.len(), 3);
    assert_eq!(merged[0].name, "Rock");
    assert_eq!((merged[0].primary_genre_count, merged[0].secondary_genre_count), (3, 9));
    assert_eq!(merged[1].name, "Jazz");
    assert_eq!((merged[1].primary_genre_count, merged[1].secondary_genre_count), (10, 0));
    assert_eq!(merged[2].name, "Pop");
    assert_eq!((merged[2].primary_genre_count, merged[2].secondary_genre_count), (0, 1));
}

#[test]
fn later_counts_win_in_genre_merge() {
    let primary = vec![
        ItemAndCount { name: "Rock".to_string(), count: 3 },
        ItemAndCount { name: "Rock".to_string(), count: 4 },
    ];
    let merged = merge_genre_aggregates(&primary, &Vec::new());
    assert_eq!(merged.len(), 1);
    assert_eq!(merged[0].primary_genre_count, 4);
}

#[test]
fn counts_ranked_descending() {
    let mut items = vec![
        ItemAndCount { name: "a".to_string(), count: 1 },
        ItemAndCount { name: "b".to_string(), count: 5 },
        ItemAndCount { name: "c".to_string(), count: 3 },
    ];
    rank_by_count(&mut items);
    let names: Vec<&str> = items.iter().map(|i| i.name.as_str()).collect();
    assert_eq!(names, vec!["b", "c", "a"]);
}

#[test]
fn grouped_rows() {
    let good = vec![("descriptor".to_string(), "dark".to_string()), ("count".to_string(), "12".to_string())];
    let item = item_and_count_from_row(&good).ok().unwrap();
    assert_eq!((item.name.as_str(), item.count), ("dark", 12));
    assert!(matches!(item_and_count_from_row(&vec![]), Err(RowError::MissingName)));
    assert!(matches!(
        item_and_count_from_row(&vec![("a".to_string(), "b".to_string())]),
        Err(RowError::MissingCount)
    ));
    let bad = vec![("d".to_string(), "x".to_string()), ("count".to_string(), "-1".to_string())];
    assert!(matches!(item_and_count_from_row(&bad), Err(RowError::InvalidCount)));
    let parsed = parse_item_rows(&vec![good, bad]);
    assert_eq!(parsed.len(), 1);
    assert_eq!(album_key(&fname("release/album/x/")), "album:release/album/x/");
}

#[test]
fn missing_albums_are_named() {
    let albums = vec![album("a/", "A", 1)];
    let found = check_all_found(&vec![fname("a/")], albums);
    assert!(found.is_ok());
    let albums = vec![album("a/", "A", 1)];
    match check_all_found(&vec![fname("a/"), fname("b/"), fname("c/")], albums) {
        Err(e) => assert_eq!(e.message(), "Albums not found: b/, c/"),
        Ok(_) => panic!("b/ and c/ are missing"),
    }
}

#[test]
fn duplicates_plan() {
    let mut original = album("release/album/x/ok/", "OK Computer", 100);
    original.duplicates = vec![fname("release/album/x/ok-2/")];
    let mut other = album("release/album/x/ok-2/", "ok computer", 5);
    other.duplicate_of = Some(fname("release/album/x/ok/"));
    let third = album("release/album/x/ok-1/", "OK COMPUTER", 7);
    let unrelated = album("release/album/x/kid-a/", "Kid A", 1000);
    let found = vec![other, unrelated, original, third];
    let subject = album("release/album/x/ok-1/", "OK Computer", 7);
    let plan = plan_duplicates(&subject, &found).unwrap();
    assert_eq!(plan.original.0, "release/album/x/ok/");
    let dups: Vec<&str> = plan.duplicates.iter().map(|f| f.0.as_str()).collect();
    assert_eq!(dups, vec!["release/album/x/ok-1/", "release/album/x/ok-2/"]);
    assert!(plan.update_original);
    let marks: Vec<&str> = plan.mark_duplicate_of.iter().map(|f| f.0.as_str()).collect();
    assert_eq!(marks, vec!["release/album/x/ok-1/"]);
    let alone = vec![album("a/", "Alone", 1)];
    assert!(plan_duplicates(&album("a/", "Alone", 1), &alone).is_none());
}

#[test]
fn duplicates_are_marked_most_ratings_first() {
    let found = vec![
        album("a/", "Same", 3),
        album("b/", "Same", 9),
        album("c/", "Same", 50),
        album("d/", "Same", 9),
        album("e/", "Same", 1),
    ];
    let plan = plan_duplicates(&album("z/", "same", 0), &found).unwrap();
    assert_eq!(plan.original.0, "c/");
    let marks: Vec<&str> = plan.mark_duplicate_of.iter().map(|f| f.0.as_str()).collect();
    assert_eq!(marks, vec!["b/", "d/", "a/", "e/"]);
    let dups: Vec<&str> = plan.duplicates.iter().map(|f| f.0.as_str()).collect();
    assert_eq!(dups, vec!["a/", "b/", "d/", "e/"]);
}

#[test]
fn ties_in_ratings_go_to_the_first() {
    let found = vec![album("a/", "Same", 5), album("b/", "Same", 5)];
    let plan = plan_duplicates(&album("c/", "same", 0), &found).unwrap();
    assert_eq!(plan.original.0, "a/");
}

#[test]
fn ascii_case_comparison() {
    assert!(eq_ignore_ascii_case("Hello", "hELLO"));
    assert!(!eq_ignore_ascii_case("Hello", "Hello!"));
    assert!(!eq_ignore_ascii_case("É", "é"));
}

#[test]
fn related_artists_each_once() {
    let mut a = album("a/", "A", 1);
    a.credits = vec![AlbumReadModelCredit {
        artist: AlbumReadModelArtist { name: "P".to_string(), file_name: fname("artist/p/") },
        roles: strings(&["producer"]),
    }];
    let b = album("b/", "B", 1);
    let related = related_artist_file_names(&vec![a, b]);
    let mut names: Vec<&str> = related.iter().map(|f| f.0.as_str()).collect();
    names.sort();
    assert_eq!(names, vec!["artist/a/", "artist/p/"]);
}

#[test]
fn similarity_filters_exclude_the_album() {
    let q = similarity_filters(None, fname("x/"));
    assert_eq!(q.exclude_file_names.len(), 1);
    let mut given = AlbumSearchQuery::new();
    given.exclude_file_names = vec![fname("x/")];
    given.min_release_year = Some(1980);
    let q = similarity_filters(Some(given), fname("x/"));
    assert_eq!(q.exclude_file_names.len(), 1);
    assert_eq!(q.min_release_year, Some(1980));
}

#[test]
fn duplicate_links() {
    let mut a = album("a/", "A", 1);
    assert!(duplicate_link(&a).is_none());
    a.duplicates = vec![fname("b/"), fname("c/")];
    assert_eq!(duplicate_link(&a).unwrap().0, "b/");
    a.duplicate_of = Some(fname("z/"));
    assert_eq!(duplicate_link(&a).unwrap().0, "z/");
}

#[test]
fn duplication_from_rows() {
    let rows = vec![
        DuplicationRow { original_album_id: 1, duplicate_album_id: 2, original_file_name: fname("o/"), duplicate_file_name: fname("d2/") },
        DuplicationRow { original_album_id: 1, duplicate_album_id: 3, original_file_name: fname("o/"), duplicate_file_name: fname("d3/") },
    ];
    let map = find_album_duplication(&rows);
    match map.get(&1) {
        Some(AlbumDuplication::Duplicates(v)) => {
            let names: Vec<&str> = v.iter().map(|f| f.0.as_str()).collect();
            assert_eq!(names, vec!["d2/", "d3/"]);
        }
        _ => panic!("album 1 has duplicates"),
    }
    assert!(matches!(map.get(&2), Some(AlbumDuplication::DuplicateOf(f)) if f.0 == "o/"));
    let (of, dups) = duplication_fields(None);
    assert!(of.is_none() && dups.is_empty());
    let repo = SqliteAlbumRepository::new(1u8);
    assert_eq!(repo.sqlite_connection, 1u8);
}

#[test]
fn credits_from_rows() {
    let row = |id: i64, artist: &str, role: &str| CreditRow {
        album_id: id,
        artist_file_name: fname(artist),
        artist_name: artist.to_uppercase(),
        role: role.to_string(),
    };
    let rows = vec![row(1, "a/", "producer"), row(1, "b/", "mixing"), row(1, "a/", "engineer"), row(2, "a/", "vocals")];
    let map = find_album_credits(&rows);
    let credits = map.get(&1).unwrap();
    assert_eq!(credits.len(), 2);
    assert_eq!(credits[0].artist.file_name.0, "a/");
    assert_eq!(credits[0].roles, strings(&["producer", "engineer"]));
    assert_eq!(credits[1].roles, strings(&["mixing"]));
    assert_eq!(map.get(&2).unwrap().len(), 1);
}

#[test]
fn index_keys_and_queries() {
    assert_eq!(redis_key(&fname("release/album/x/")), "album:release/album/x/");
    assert_eq!(embedding_json_key("openai-default"), "embedding_openai_default");
    assert_eq!(embedding_json_path("openai-default"), "$.embedding_openai_default");
    let mut filters = AlbumSearchQuery::new();
    filters.include_duplicates = Some(true);
    assert_eq!(
        embedding_similarity_ft_query(&filters, 10, "voyageai-default"),
        "()=>[KNN 10 @embedding_voyageai_default $BLOB as distance]"
    );
    assert!(needs_album_root(&None));
    assert!(needs_album_root(&Some("{}".to_string())));
    assert!(!needs_album_root(&Some("{\"a\":1}".to_string())));
}

#[test]
fn indexed_album_roundtrip() {
    let mut a = album("release/album/björk/x/", "Homogénic", 42);
    a.artists = vec![AlbumReadModelArtist { name: "Björk".to_string(), file_name: fname("artist/bjork/") }];
    a.duplicate_of = Some(fname("o/"));
    let indexed = RedisAlbumReadModel::from_album(a);
    assert_eq!(indexed.ascii_name, "Homogenic");
    assert_eq!(indexed.name_tag, "Homogénic");
    assert_eq!(indexed.artists[0].ascii_name, "Bjork");
    assert_eq!(indexed.artist_count, 1);
    assert_eq!(indexed.release_year, Some(1999));
    assert_eq!(indexed.is_duplicate, 1);
    let back = indexed.into_album();
    assert_eq!(back.name, "Homogénic");
    assert_eq!(back.rating_count, 42);
    assert_eq!(back.artists[0].name, "Björk");
    let artist = RedisAlbumReadModelArtist::from_artist(AlbumReadModelArtist {
        name: "Sigur Rós".to_string(),
        file_name: fname("artist/sigur-ros/"),
    });
    assert_eq!(artist.ascii_name, "Sigur Ros");
    let back = artist.into_artist();
    assert_eq!(back.name, "Sigur Rós");
    assert_eq!(back.file_name.0, "artist/sigur-ros/");
}

#[test]
fn credit_tags_lowercase_roles() {
    let mut a = album("a/", "A", 1);
    a.credits = vec![AlbumReadModelCredit {
        artist: AlbumReadModelArtist { name: "P".to_string(), file_name: fname("artist/p/") },
        roles: strings(&["Lead Vocals", "Producer"]),
    }];
    assert_eq!(a.credit_tags(), strings(&["artist/p/:lead_vocals", "artist/p/:producer"]));
}

#[test]
fn search_rows_by_attribute() {
    let row = vec![
        ("$.name".to_string(), "First".to_string()),
        ("$.rating_count".to_string(), "12".to_string()),
        ("$.unknown".to_string(), "x".to_string()),
        ("$.name".to_string(), "Second".to_string()),
        ("$.release_date".to_string(), "".to_string()),
    ];
    let fields = lute::albums::redis_album_search_index::search_row_fields(&row);
    assert_eq!(fields.name, Some("Second".to_string()));
    assert_eq!(fields.rating_count, Some("12".to_string()));
    assert_eq!(fields.file_name, None);
    assert_eq!(lute::albums::redis_album_search_index::optional_text(fields.release_date), None);
    assert_eq!(
        lute::albums::redis_album_search_index::optional_text(Some("2001-01-01".to_string())),
        Some("2001-01-01".to_string())
    );
    assert_eq!(lute::albums::redis_album_search_index::search_page(None, None), (100000, 0));
    assert_eq!(lute::albums::redis_album_search_index::search_page(Some(5), Some(10)), (5, 10));
}

#[test]
fn album_index_schema() {

    let schema = get_schema(&vec![("openai-default".to_string(), 3072)]);
    assert_eq!(schema.len(), 20);
    assert_eq!((schema[0].path.as_str(), schema[0].attribute.as_str()), ("$.name", "name"));
    assert!(schema[0].kind == FieldKind::Text);
    assert_eq!(schema[18].attribute, "ascii_name");
    let last = &schema[19];
    assert_eq!(last.path, "$.embedding_openai_default");
    assert_eq!(last.attribute, "embedding_openai_default");
    assert!(last.kind == FieldKind::Vector { dimensions: 3072 });
}

#[test]
fn albums_assembled_from_parts() {


    let entity = |id: i64, f: &str| AlbumEntity {
        id,
        name: f.to_uppercase(),
        file_name: fname(f),
        rating_count: 3,
        release_date: None,
        cover_image_url: None,
    };
    let mut parts = AlbumParts {
        artists: HashMap::new(),
        genres: HashMap::new(),
        descriptors: HashMap::new(),
        languages: HashMap::new(),
        credits: HashMap::new(),
        duplication: HashMap::new(),
    };
    parts.genres.insert(1, (strings(&["Rock"]), strings(&["Pop"])));
    parts.descriptors.insert(1, strings(&["loud"]));
    parts.duplication.insert(2, AlbumDuplication::DuplicateOf(fname("a/")));
    let albums = assemble_albums(
        &vec![fname("a/"), fname("missing/"), fname("b/"), fname("a/")],
        &vec![entity(1, "a/"), entity(2, "b/")],
        parts,
    );
    assert_eq!(albums.len(), 3);
    assert_eq!(albums[0].primary_genres, strings(&["Rock"]));
    assert_eq!(albums[0].descriptors, strings(&["loud"]));
    assert_eq!(albums[1].duplicate_of.as_ref().unwrap().0, "a/");
    assert!(albums[2].primary_genres.is_empty());
}
