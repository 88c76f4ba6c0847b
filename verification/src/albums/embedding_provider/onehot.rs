//! The one-hot album embedding: each of an album's tags sets one of 512
//! positions, chosen by the tag's hash.
use crate::albums::album_read_model::{AlbumReadModel, AlbumReadModelCredit};
use crate::albums::embedding_provider::helpers::{
    artist_names, push_all, push_artist_names, strs,
};
use crate::text::{decimal, push_decimal, push_signed_decimal, push_str, signed_decimal};
use std::hash::{DefaultHasher, Hash, Hasher};
use vstd::prelude::*;

verus! {

/// The provider of one-hot album embeddings.
pub struct OneHotAlbumEmbeddingProvider;

impl OneHotAlbumEmbeddingProvider {
    /// The provider.
    pub fn new() -> (res: Self) {
        OneHotAlbumEmbeddingProvider
    }
}

/// The name under which the provider's embeddings are kept.
pub const PROVIDER_NAME: &'static str = "one-hot-default";

/// The number of positions of an embedding.
pub const DIMENSIONS: usize = 512;

/// What std's default hasher gives for a tag's text.
pub uninterp spec fn spec_default_hash(tag: Seq<char>) -> u64;

/// Hashes a tag with std's default hasher.
///
/// Trusted: feeds the tag to a `std::hash::DefaultHasher` made by `new`
/// through `Hash::hash` and returns `Hasher::finish`. std documents every
/// hasher made by `new` as the same as every other one so made, so the
/// result depends on the tag alone; it is named, not written out, since std
/// leaves the algorithm unspecified (it may change between releases of std).
#[verifier::external_body]
fn default_hash(tag: &str) -> (res: u64)
    ensures
        res == spec_default_hash(tag@),
{
    let mut hasher = DefaultHasher::new();
    tag.hash(&mut hasher);
    hasher.finish()
}

/// The position that a hash selects: the hash, as a `usize`, modulo the
/// number of positions.
pub fn index_of_hash(h: u64) -> (res: usize)
    ensures
        res == (h as usize) % (DIMENSIONS as usize),
        res < DIMENSIONS,
{
    (h as usize) % DIMENSIONS
}

/// The position of a tag: the position that the tag's default hash selects.
pub open spec fn spec_to_index(tag: Seq<char>) -> usize {
    ((spec_default_hash(tag) as usize) % (DIMENSIONS as usize)) as usize
}

/// The position of a tag.
pub fn to_index(tag: String) -> (res: usize)
    ensures
        res == spec_to_index(tag@),
        res < DIMENSIONS,
{
    let h = default_hash(tag.as_str());
    index_of_hash(h)
}

/// The tag of one credit role: the artist's name, `:` and the role.
pub open spec fn onehot_credit_tags(credits: Seq<AlbumReadModelCredit>) -> Seq<Seq<char>>
    decreases credits.len(),
{
    if credits.len() == 0 {
        Seq::empty()
    } else {
        let c = credits.last();
        onehot_credit_tags(credits.drop_last()) + c.roles@.map_values(
            |r: String| c.artist.name@ + ":"@ + r@,
        )
    }
}

/// The least multiple of 1000 that is not below `n`.
pub open spec fn next_thousand(n: u32) -> nat {
    if n % 1000 == 0 {
        n as nat
    } else {
        (n + (1000 - n % 1000)) as nat
    }
}

/// The tags of an album: its artists, its credit roles, genres,
/// descriptors and languages, its name, its rounded rating as the
/// application writes it, its rating count rounded up to a thousand, and
/// its release year if known.
pub open spec fn spec_one_hot_tags(album: AlbumReadModel, rounded_rating: Seq<char>) -> Seq<Seq<char>> {
    artist_names(album.artists@) + onehot_credit_tags(album.credits@) + strs(album.primary_genres@)
        + strs(album.secondary_genres@) + strs(album.descriptors@) + strs(album.languages@) + seq![
        album.name@,
        rounded_rating,
        decimal(next_thousand(album.rating_count)),
    ] + match album.release_date {
        Some(d) => seq![signed_decimal(d.year as int)],
        None => Seq::empty(),
    }
}

fn push_onehot_credit_tags(out: &mut Vec<String>, credits: &Vec<AlbumReadModelCredit>)
    ensures
        strs(final(out)@) == strs(old(out)@) + onehot_credit_tags(credits@),
{
    for i in 0..credits.len()
        invariant
            strs(out@) == strs(old(out)@) + onehot_credit_tags(credits@.take(i as int)),
    {
        proof {
            assert(credits@.take(i + 1).drop_last() =~= credits@.take(i as int));
        }
        let credit = &credits[i];
        let ghost start = strs(out@);
        for j in 0..credit.roles.len()
            invariant
                strs(out@) == start + credit.roles@.take(j as int).map_values(
                    |r: String| credit.artist.name@ + ":"@ + r@,
                ),
        {
            let mut tag = credit.artist.name.clone();
            push_str(&mut tag, ":");
            push_str(&mut tag, credit.roles[j].as_str());
            let ghost before = out@;
            out.push(tag);
            proof {
                assert(out@ =~= before.push(tag));
                assert(strs(out@) =~= strs(before).push(tag@));
                assert(credit.roles@.take(j + 1) =~= credit.roles@.take(j as int).push(
                    credit.roles@[j as int],
                ));
                assert(credit.roles@.take(j + 1).map_values(|r: String| credit.artist.name@ + ":"@ + r@)
                    =~= credit.roles@.take(j as int).map_values(
                    |r: String| credit.artist.name@ + ":"@ + r@,
                ).push(credit.artist.name@ + ":"@ + credit.roles@[j as int]@));
            }
        }
        proof {
            assert(credit.roles@.take(credit.roles@.len() as int) =~= credit.roles@);
        }
    }
    proof {
        assert(credits@.take(credits@.len() as int) =~= credits@);
    }
}

/// The tags of an album, `rounded_rating` being its rating rounded and
/// written as text.
pub fn one_hot_tags(album: &AlbumReadModel, rounded_rating: &str) -> (res: Vec<String>)
    requires
        album.rating_count <= 4294967000,
    ensures
        strs(res@) == spec_one_hot_tags(*album, rounded_rating@),
{
    let mut tags: Vec<String> = Vec::new();
    push_artist_names(&mut tags, &album.artists);
    push_onehot_credit_tags(&mut tags, &album.credits);
    push_all(&mut tags, &album.primary_genres);
    push_all(&mut tags, &album.secondary_genres);
    push_all(&mut tags, &album.descriptors);
    push_all(&mut tags, &album.languages);
    let ghost middle = tags@;
    tags.push(album.name.clone());
    tags.push(rounded_rating.to_owned());
    let c = album.rating_count;
    let rounded: u32 = if c % 1000 == 0 {
        c
    } else {
        c + (1000 - c % 1000)
    };
    let mut count = String::new();
    push_decimal(&mut count, rounded as u64);
    tags.push(count);
    proof {
        assert(strs(tags@) =~= strs(middle) + seq![
            album.name@,
            rounded_rating@,
            decimal(next_thousand(album.rating_count)),
        ]);
    }
    let ghost before_year = tags@;
    match album.release_date {
        Some(d) => {
            let mut year = String::new();
            push_signed_decimal(&mut year, d.year as i64);
            tags.push(year);
            proof {
                assert(strs(tags@) =~= strs(before_year).push(year@));
            }
        },
        None => {},
    }
    proof {
        assert(strs(tags@) =~= spec_one_hot_tags(*album, rounded_rating@));
    }
    tags
}

/// The positions that the tags set, tag by tag.
pub fn one_hot_indices(tags: &Vec<String>) -> (res: Vec<usize>)
    ensures
        res@.len() == tags@.len(),
        forall|i: int| 0 <= i < res@.len() ==> #[trigger] res@[i] == spec_to_index(tags@[i]@),
        forall|i: int| 0 <= i < res@.len() ==> #[trigger] res@[i] < DIMENSIONS,
{
    let mut res: Vec<usize> = Vec::new();
    for i in 0..tags.len()
        invariant
            res@.len() == i,
            forall|k: int| 0 <= k < res@.len() ==> #[trigger] res@[k] == spec_to_index(tags@[k]@),
            forall|k: int| 0 <= k < res@.len() ==> #[trigger] res@[k] < DIMENSIONS,
    {
        res.push(to_index(tags[i].clone()));
    }
    res
}

/// The one-hot tags of an album, position by position: its artists' names,
/// then its credit tags, then its primary genres, secondary genres,
/// descriptors and languages, each in order, then its name, the rounded
/// rating, the rating count rounded up to a thousand and, if known, the
/// release year. Every genre, descriptor and language of the album thus
/// sets a position.
pub proof fn lemma_one_hot_tag_positions(album: AlbumReadModel, rounded_rating: Seq<char>)
    ensures
        ({
            let t = spec_one_hot_tags(album, rounded_rating);
            let o_p: int = album.artists@.len() as int + onehot_credit_tags(album.credits@).len() as int;
            let o_s: int = o_p + album.primary_genres@.len();
            let o_d: int = o_s + album.secondary_genres@.len();
            let o_l: int = o_d + album.descriptors@.len();
            let o_n: int = o_l + album.languages@.len();
            &&& t.len() == o_n + 3 + if album.release_date is Some { 1int } else { 0int }
            &&& forall|i: int| 0 <= i < album.artists@.len() ==> t[i] == (#[trigger] album.artists@[i]).name@
            &&& forall|i: int| 0 <= i < album.primary_genres@.len() ==> t[o_p + i] == (#[trigger] album.primary_genres@[i])@
            &&& forall|i: int| 0 <= i < album.secondary_genres@.len() ==> t[o_s + i] == (#[trigger] album.secondary_genres@[i])@
            &&& forall|i: int| 0 <= i < album.descriptors@.len() ==> t[o_d + i] == (#[trigger] album.descriptors@[i])@
            &&& forall|i: int| 0 <= i < album.languages@.len() ==> t[o_l + i] == (#[trigger] album.languages@[i])@
            &&& t[o_n] == album.name@
            &&& t[o_n + 1] == rounded_rating
            &&& t[o_n + 2] == decimal(next_thousand(album.rating_count))
            &&& album.release_date matches Some(d) ==> t[o_n + 3] == signed_decimal(d.year as int)
        }),
{
    let t = spec_one_hot_tags(album, rounded_rating);
    let a = artist_names(album.artists@);
    let c = onehot_credit_tags(album.credits@);
    let p = strs(album.primary_genres@);
    let s2 = strs(album.secondary_genres@);
    let d = strs(album.descriptors@);
    let l = strs(album.languages@);
    let tail = seq![album.name@, rounded_rating, decimal(next_thousand(album.rating_count))];
    let y = match album.release_date {
        Some(dt) => seq![signed_decimal(dt.year as int)],
        None => Seq::<Seq<char>>::empty(),
    };
    assert(t =~= a + c + p + s2 + d + l + tail + y);
    let o_p: int = a.len() as int + c.len() as int;
    let o_s: int = o_p + p.len();
    let o_d: int = o_s + s2.len();
    let o_l: int = o_d + d.len();
    let o_n: int = o_l + l.len();
    assert forall|i: int| 0 <= i < album.artists@.len() implies t[i] == (#[trigger] album.artists@[i]).name@ by {
        assert(t[i] == a[i]);
    }
    assert forall|i: int| 0 <= i < album.primary_genres@.len() implies t[o_p + i] == (#[trigger] album.primary_genres@[i])@ by {
        assert(t[o_p + i] == p[i]);
    }
    assert forall|i: int| 0 <= i < album.secondary_genres@.len() implies t[o_s + i] == (#[trigger] album.secondary_genres@[i])@ by {
        assert(t[o_s + i] == s2[i]);
    }
    assert forall|i: int| 0 <= i < album.descriptors@.len() implies t[o_d + i] == (#[trigger] album.descriptors@[i])@ by {
        assert(t[o_d + i] == d[i]);
    }
    assert forall|i: int| 0 <= i < album.languages@.len() implies t[o_l + i] == (#[trigger] album.languages@[i])@ by {
        assert(t[o_l + i] == l[i]);
    }
    assert(t[o_n] == tail[0]);
    assert(t[o_n + 1] == tail[1]);
    assert(t[o_n + 2] == tail[2]);
    if album.release_date is Some {
        assert(t[o_n + 3] == y[0]);
    }
}

/// The count tag rounds the rating count up to a multiple of a thousand:
/// the least such multiple that is not below it.
pub proof fn lemma_next_thousand(n: u32)
    ensures
        next_thousand(n) % 1000 == 0,
        n <= next_thousand(n) < n + 1000,
{
}

} // verus!
