use lute::albums::album_read_model::{
    AlbumReadModel, AlbumReadModelArtist, AlbumReadModelCredit, CalendarDate,
};
use lute::albums::embedding_provider::cache::{
    EmbeddingProviderCache, EmbeddingProviderCacheItem, cached_embedding,
};
use lute::albums::embedding_provider::helpers::{
    digest_base64, get_document_id, get_embedding_api_input, lower_hex, push_iso_date,
};
use lute::albums::embedding_provider::onehot::{
    DIMENSIONS, OneHotAlbumEmbeddingProvider, index_of_hash, one_hot_indices, one_hot_tags, to_index,
};
use lute::albums::embedding_provider::openai;
use lute::albums::embedding_provider::voyageai::{self, VoyageAIAlbumEmbeddingProvider};
use lute::embedding_provider::embedding_provider_event_subscribers::{
    album_embedding_job_id, artist_embedding_job_id,
};
use lute::embedding_provider::embedding_provider_interactor::EmbeddingProviderCache as ContentCache;
use lute::file_name::FileName;

fn album() -> AlbumReadModel {
    AlbumReadModel {
        name: "Vespertine".to_string(),
        file_name: FileName("release/album/bjork/vespertine/".to_string()),
        rating_count: 1234,
        artists: vec![AlbumReadModelArtist { name: "Björk".to_string(), file_name: FileName("artist/bjork/".to_string()) }],
        primary_genres: vec!["Art Pop".to_string()],
        secondary_genres: vec![],
        descriptors: vec!["cold".to_string()],
        release_date: Some(CalendarDate { year: 2001, month: 8, day: 27 }),
        languages: vec!["English".to_string()],
        credits: vec![AlbumReadModelCredit {
            artist: AlbumReadModelArtist { name: "Matmos".to_string(), file_name: FileName("artist/matmos/".to_string()) },
            roles: vec!["programming".to_string()],
        }],
        duplicate_of: None,
        duplicates: vec![],
        cover_image_url: None,
    }
}

#[test]
fn document_ids_are_sha256_in_hex() {
    assert_eq!(get_document_id(String::new()), "e3b0c44298fc1c149afbf4c8996fb92427ae41e4649b934ca495991b7852b855");
    assert_eq!(get_document_id("abc".to_string()), "ba7816bf8f01cfea414140de5dae2223b00361a396177a9cb410ff61f20015ad");
    assert_eq!(lower_hex(&vec![0x0a, 0x14, 0x1e, 0xff]), "0a141eff");
}

#[test]
fn dates_as_chrono_writes_them() {
    let text = |year, month, day| {
        let mut s = String::new();
        push_iso_date(&mut s, CalendarDate { year, month, day });
        s
    };
    assert_eq!(text(2015, 9, 18), "2015-09-18");
    assert_eq!(text(987, 1, 2), "0987-01-02");
    assert_eq!(text(12345, 6, 7), "+12345-06-07");
    assert_eq!(text(-1, 6, 7), "-0001-06-07");
}

#[test]
fn embedding_api_input() {
    let (id, body) = get_embedding_api_input(&album(), "3.9");
    assert_eq!(body, "3.9, 1234, 2001-08-27, Björk, Art Pop, cold, English, Matmos");
    assert_eq!(id, get_document_id(body.clone()));
}

#[test]
fn one_hot_tags_and_positions() {
    let tags = one_hot_tags(&album(), "4");
    assert_eq!(
        tags,
        vec!["Björk", "Matmos:programming", "Art Pop", "cold", "English", "Vespertine", "4", "2000", "2001"]
    );
    let positions = one_hot_indices(&tags);
    assert_eq!(positions.len(), tags.len());
    assert!(positions.iter().all(|p| *p < DIMENSIONS));
    assert_eq!(to_index("x".to_string()), to_index("x".to_string()));
    assert_eq!(index_of_hash(1025), 1);
    let _ = OneHotAlbumEmbeddingProvider::new();
}

fn std_default_hash_index(tag: &str) -> usize {
    let mut hasher = std::hash::DefaultHasher::new();
    std::hash::Hash::hash(tag, &mut hasher);
    (std::hash::Hasher::finish(&hasher) as usize) % 512
}

#[test]
fn one_hot_position_is_the_default_hash_of_the_tag() {
    for tag in ["rock", "Björk", "Matmos:programming", "2001", ""] {
        assert_eq!(to_index(tag.to_string()), std_default_hash_index(tag));
    }
    let tags: Vec<String> = vec!["jazz".to_string(), "1999".to_string()];
    let positions = one_hot_indices(&tags);
    assert_eq!(positions, vec![std_default_hash_index("jazz"), std_default_hash_index("1999")]);
}

#[test]
fn cache_keys_and_hits() {
    let cache = EmbeddingProviderCache::new("voyageai-default", ());
    assert_eq!(
        cache.build_key(&album()),
        "embedding_provider_cache:voyageai-default:release/album/bjork/vespertine/"
    );
    let hit = cached_embedding(Some(EmbeddingProviderCacheItem { hash: "h".to_string(), embedding: 7u8 }), &"h".to_string());
    assert_eq!(hit, Some(7u8));
    let stale = cached_embedding(Some(EmbeddingProviderCacheItem { hash: "old".to_string(), embedding: 7u8 }), &"h".to_string());
    assert_eq!(stale, None);
    assert_eq!(cached_embedding::<u8>(None, &"h".to_string()), None);
    let content = ContentCache::new(());
    assert_eq!(
        content.build_key("openai", ""),
        "embedding_cache:openai:e3b0c44298fc1c149afbf4c8996fb92427ae41e4649b934ca495991b7852b855"
    );
}

#[test]
fn provider_keys() {
    assert_eq!(openai::document_kv_key("abc"), "openai:doc:abc");
    assert_eq!(voyageai::document_kv_key("abc"), "voyageai:doc:abc");
    let provider = VoyageAIAlbumEmbeddingProvider::new(5u8);
    assert_eq!(provider.kv, 5u8);
    let f = FileName("x/".to_string());
    assert_eq!(album_embedding_job_id("p", &f), "generate_album_embedding:p:x/");
    assert_eq!(artist_embedding_job_id("p", &f), "generate_artist_embedding:p:x/");
}

#[test]
fn album_fingerprint_digest() {
    assert_eq!(digest_base64(""), "47DEQpj8HBSa+/TImW+5JCeuQeRkm5NMpJWZG3hSuFU=");
    assert_eq!(digest_base64("abc"), "ungWv48Bz+pBQUDeXa4iI7ADYaOWF3qctBD/YfIAFa0=");
}
