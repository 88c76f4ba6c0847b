//! The album read model: what the catalogue knows of one album.
use crate::file_name::FileName;
use crate::parsed::{ParsedAlbum, ParsedArtistReference, ParsedCredit};
use crate::text::{push_char, push_str, replace_char, replace_char_exec, spec_to_lowercase, to_lowercase};
use vstd::prelude::*;

verus! {

/// A calendar date as year, month and day.
#[derive(Clone, Copy, PartialEq, Eq, Structural)]
pub struct CalendarDate {
    pub year: i32,
    pub month: u32,
    pub day: u32,
}

/// An artist as an album refers to it.
pub struct AlbumReadModelArtist {
    pub name: String,
    pub file_name: FileName,
}

/// An artist credited on an album, with the roles of the credit.
pub struct AlbumReadModelCredit {
    pub artist: AlbumReadModelArtist,
    pub roles: Vec<String>,
}

/// An album. The average rating and the track list, which hold floating-point
/// ratings, are kept beside this model by the application; nothing here reads them.
pub struct AlbumReadModel {
    pub name: String,
    pub file_name: FileName,
    pub rating_count: u32,
    pub artists: Vec<AlbumReadModelArtist>,
    pub primary_genres: Vec<String>,
    pub secondary_genres: Vec<String>,
    pub descriptors: Vec<String>,
    pub release_date: Option<CalendarDate>,
    pub languages: Vec<String>,
    pub credits: Vec<AlbumReadModelCredit>,
    pub duplicate_of: Option<FileName>,
    pub duplicates: Vec<FileName>,
    pub cover_image_url: Option<String>,
}

/// What `unidecode::unidecode_char` returns for a character: its ASCII
/// transliteration from the crate's table.
pub uninterp spec fn spec_unidecode_char(c: char) -> Seq<char>;

/// Transliterates one character to ASCII.
///
/// Trusted: calls `unidecode::unidecode_char`, which looks the character up
/// in the crate's table. The crate documents that the result is ASCII and
/// that an ASCII character maps to itself; beyond that the table is named,
/// not restated.
#[verifier::external_body]
fn unidecode_char(c: char) -> (res: &'static str)
    ensures
        res@ == spec_unidecode_char(c),
        forall|i: int| 0 <= i < res@.len() ==> (#[trigger] res@[i] as u32) < 128,
        (c as u32) < 128 ==> res@ == seq![c],
{
    unidecode::unidecode_char(c)
}

/// The ASCII transliteration of a text, character by character, as
/// `unidecode::unidecode` computes it.
pub open spec fn spec_ascii(s: Seq<char>) -> Seq<char>
    decreases s.len(),
{
    if s.len() == 0 {
        Seq::empty()
    } else {
        spec_ascii(s.drop_last()) + spec_unidecode_char(s.last())
    }
}

/// The ASCII transliteration of `s`.
pub fn to_ascii(s: &str) -> (res: String)
    ensures
        res@ == spec_ascii(s@),
{
    let mut res = String::new();
    for c in it: s.chars()
        invariant
            res@ == spec_ascii(it.seq().take(it.index() as int)),
            it.seq() == s@,
    {
        let t = unidecode_char(c);
        push_str(&mut res, t);
        proof {
            let after = it.seq().take(it.index() as int + 1);
            assert(after.drop_last() =~= it.seq().take(it.index() as int));
        }
    }
    proof {
        assert(s@.take(s@.len() as int) =~= s@);
    }
    res
}

/// The tag of one credit role: `artist:role`, with the role lower-cased
/// and its spaces turned into underscores.
pub open spec fn spec_credit_tag(artist_file_name: Seq<char>, role: Seq<char>) -> Seq<char> {
    artist_file_name + ":"@ + replace_char(spec_to_lowercase(role), ' ', '_')
}

/// The credit tags of a list of credits: for each credit in order, the tag
/// of each of its roles in order.
pub open spec fn spec_credit_tags(credits: Seq<AlbumReadModelCredit>) -> Seq<Seq<char>>
    decreases credits.len(),
{
    if credits.len() == 0 {
        Seq::empty()
    } else {
        let c = credits.last();
        spec_credit_tags(credits.drop_last()) + c.roles@.map_values(
            |r: String| spec_credit_tag(c.artist.file_name@, r@),
        )
    }
}

fn credit_tag(artist_file_name: &FileName, role: &String) -> (res: String)
    ensures
        res@ == spec_credit_tag(artist_file_name@, role@),
{
    let mut res = artist_file_name.to_string();
    push_str(&mut res, ":");
    let lower = to_lowercase(role.as_str());
    let replaced = replace_char_exec(lower.as_str(), ' ', '_');
    push_str(&mut res, replaced.as_str());
    res
}

impl AlbumReadModelArtist {
    /// The artist's name transliterated to ASCII.
    pub fn ascii_name(&self) -> (res: String)
        ensures
            res@ == spec_ascii(self.name@),
    {
        to_ascii(self.name.as_str())
    }
}

impl AlbumReadModel {
    /// The album's name transliterated to ASCII.
    pub fn ascii_name(&self) -> (res: String)
        ensures
            res@ == spec_ascii(self.name@),
    {
        to_ascii(self.name.as_str())
    }

    /// One tag per credited role, `artist_file_name:role`.
    pub fn credit_tags(&self) -> (res: Vec<String>)
        ensures
            res@.map_values(|t: String| t@) == spec_credit_tags(self.credits@),
    {
        let mut res: Vec<String> = Vec::new();
        for i in 0..self.credits.len()
            invariant
                res@.map_values(|t: String| t@) == spec_credit_tags(self.credits@.take(i as int)),
        {
            let credit = &self.credits[i];
            let ghost start = res@.map_values(|t: String| t@);
            for j in 0..credit.roles.len()
                invariant
                    res@.map_values(|t: String| t@) == start + credit.roles@.take(j as int).map_values(
                        |r: String| spec_credit_tag(credit.artist.file_name@, r@),
                    ),
            {
                let tag = credit_tag(&credit.artist.file_name, &credit.roles[j]);
                let ghost before = res@;
                res.push(tag);
                proof {
                    assert(res@ =~= before.push(tag));
                    assert(res@.map_values(|t: String| t@) =~= before.map_values(|t: String| t@).push(tag@));
                    assert(credit.roles@.take(j + 1) =~= credit.roles@.take(j as int).push(credit.roles@[j as int]));
                    assert(res@.map_values(|t: String| t@) =~= start + credit.roles@.take(j + 1).map_values(
                        |r: String| spec_credit_tag(credit.artist.file_name@, r@),
                    ));
                }
            }
            proof {
                assert(credit.roles@.take(credit.roles@.len() as int) =~= credit.roles@);
                assert(self.credits@.take(i + 1).drop_last() =~= self.credits@.take(i as int));
                assert(self.credits@.take(i + 1).last() == *credit);
            }
        }
        proof {
            assert(self.credits@.take(self.credits@.len() as int) =~= self.credits@);
        }
        res
    }
}

/// The read-model form of an artist that a parsed page refers to.
pub open spec fn artist_of_reference(r: ParsedArtistReference) -> AlbumReadModelArtist {
    AlbumReadModelArtist { name: r.name, file_name: r.file_name }
}

/// `b` is the read model of the album `p` parsed from page `f`: the parsed
/// fields as they are, with no duplicates recorded.
pub open spec fn is_read_model_of_parsed(b: AlbumReadModel, f: FileName, p: ParsedAlbum) -> bool {
    &&& b.name == p.name
    &&& b.file_name == f
    &&& b.rating_count == p.rating_count
    &&& b.artists@ == p.artists@.map_values(|r: ParsedArtistReference| artist_of_reference(r))
    &&& b.primary_genres == p.primary_genres
    &&& b.secondary_genres == p.secondary_genres
    &&& b.descriptors == p.descriptors
    &&& b.release_date == p.release_date
    &&& b.languages == p.languages
    &&& b.credits@.len() == p.credits@.len()
    &&& forall|i: int| 0 <= i < b.credits@.len() ==> {
        &&& #[trigger] b.credits@[i].artist == artist_of_reference(p.credits@[i].artist)
        &&& b.credits@[i].roles@ == p.credits@[i].roles@
    }
    &&& b.duplicate_of is None
    &&& b.duplicates@.len() == 0
    &&& b.cover_image_url == p.cover_image_url
}

/// The parsed form of an artist of a read model.
pub open spec fn reference_of_artist(a: AlbumReadModelArtist) -> ParsedArtistReference {
    ParsedArtistReference { name: a.name, file_name: a.file_name }
}

/// `p` is the parsed form of read model `a`: its fields as they are, with
/// no tracks (the read model holds none).
pub open spec fn is_parsed_form(p: ParsedAlbum, a: AlbumReadModel) -> bool {
    &&& p.name == a.name
    &&& p.rating_count == a.rating_count
    &&& p.artists@ == a.artists@.map_values(|x: AlbumReadModelArtist| reference_of_artist(x))
    &&& p.primary_genres == a.primary_genres
    &&& p.secondary_genres == a.secondary_genres
    &&& p.descriptors == a.descriptors
    &&& p.tracks@.len() == 0
    &&& p.release_date == a.release_date
    &&& p.languages == a.languages
    &&& p.credits@.len() == a.credits@.len()
    &&& forall|i: int| 0 <= i < p.credits@.len() ==> {
        &&& #[trigger] p.credits@[i].artist == reference_of_artist(a.credits@[i].artist)
        &&& p.credits@[i].roles@ == a.credits@[i].roles@
    }
    &&& p.cover_image_url == a.cover_image_url
}

/// Two read models hold the same album: equal fields, lists compared by
/// their elements.
pub open spec fn same_content(a: AlbumReadModel, b: AlbumReadModel) -> bool {
    &&& a.name == b.name
    &&& a.file_name == b.file_name
    &&& a.rating_count == b.rating_count
    &&& a.artists@ == b.artists@
    &&& a.primary_genres@ == b.primary_genres@
    &&& a.secondary_genres@ == b.secondary_genres@
    &&& a.descriptors@ == b.descriptors@
    &&& a.release_date == b.release_date
    &&& a.languages@ == b.languages@
    &&& a.credits@.len() == b.credits@.len()
    &&& forall|i: int| 0 <= i < a.credits@.len() ==> {
        &&& #[trigger] a.credits@[i].artist == b.credits@[i].artist
        &&& a.credits@[i].roles@ == b.credits@[i].roles@
    }
    &&& a.duplicate_of == b.duplicate_of
    &&& a.duplicates@ == b.duplicates@
    &&& a.cover_image_url == b.cover_image_url
}

/// A read model with no duplicates recorded, turned into a parsed album and
/// back under its own page name, is the same album.
pub proof fn lemma_parsed_round_trip(a: AlbumReadModel, p: ParsedAlbum, b: AlbumReadModel)
    requires
        a.duplicate_of is None,
        a.duplicates@.len() == 0,
        is_parsed_form(p, a),
        is_read_model_of_parsed(b, a.file_name, p),
    ensures
        same_content(b, a),
{
    assert(b.artists@ =~= a.artists@);
    assert(b.duplicates@ =~= a.duplicates@);
    assert forall|i: int| 0 <= i < b.credits@.len() implies {
        &&& #[trigger] b.credits@[i].artist == a.credits@[i].artist
        &&& b.credits@[i].roles@ == a.credits@[i].roles@
    } by {
        assert(p.credits@[i].artist == reference_of_artist(a.credits@[i].artist));
    }
}

fn reference_from_artist(a: &AlbumReadModelArtist) -> (res: ParsedArtistReference)
    ensures
        res == reference_of_artist(*a),
{
    ParsedArtistReference { name: a.name.clone(), file_name: a.file_name.clone() }
}

impl ParsedAlbum {
    /// The parsed form of a read model: its fields as they are. The read
    /// model holds no tracks, so the parsed album has none.
    pub fn from_read_model(album: AlbumReadModel) -> (res: Self)
        ensures
            is_parsed_form(res, album),
    {
        let mut artists: Vec<ParsedArtistReference> = Vec::new();
        for i in 0..album.artists.len()
            invariant
                artists@ == album.artists@.take(i as int).map_values(|x: AlbumReadModelArtist| reference_of_artist(x)),
        {
            let r = reference_from_artist(&album.artists[i]);
            artists.push(r);
            proof {
                assert(album.artists@.take(i + 1) =~= album.artists@.take(i as int).push(album.artists@[i as int]));
                assert(artists@ =~= album.artists@.take(i + 1).map_values(|x: AlbumReadModelArtist| reference_of_artist(x)));
            }
        }
        proof {
            assert(album.artists@.take(album.artists@.len() as int) =~= album.artists@);
        }
        let mut credits: Vec<ParsedCredit> = Vec::new();
        let n = album.credits.len();
        let mut i: usize = 0;
        while i < n
            invariant
                n == album.credits@.len(),
                i <= n,
                credits@.len() == i,
                forall|k: int| 0 <= k < i ==> {
                    &&& #[trigger] credits@[k].artist == reference_of_artist(album.credits@[k].artist)
                    &&& credits@[k].roles@ == album.credits@[k].roles@
                },
            decreases n - i,
        {
            let c = &album.credits[i];
            let roles = c.roles.clone();
            proof {
                assert(roles@ =~= c.roles@);
            }
            let ghost before = credits@;
            credits.push(ParsedCredit { artist: reference_from_artist(&c.artist), roles });
            proof {
                assert forall|k: int| 0 <= k < i + 1 implies {
                    &&& #[trigger] credits@[k].artist == reference_of_artist(album.credits@[k].artist)
                    &&& credits@[k].roles@ == album.credits@[k].roles@
                } by {
                    if k < i {
                        assert(credits@[k] == before[k]);
                    }
                }
            }
            i = i + 1;
        }
        ParsedAlbum {
            name: album.name,
            rating_count: album.rating_count,
            artists,
            primary_genres: album.primary_genres,
            secondary_genres: album.secondary_genres,
            descriptors: album.descriptors,
            tracks: Vec::new(),
            release_date: album.release_date,
            languages: album.languages,
            credits,
            cover_image_url: album.cover_image_url,
        }
    }
}

/// The artist of a parsed reference.
fn artist_from_reference(r: &ParsedArtistReference) -> (res: AlbumReadModelArtist)
    ensures
        res == artist_of_reference(*r),
{
    AlbumReadModelArtist { name: r.name.clone(), file_name: r.file_name.clone() }
}

/// The credit of a parsed credit: the same artist and roles.
fn credit_from_parsed(c: &ParsedCredit) -> (res: AlbumReadModelCredit)
    ensures
        res.artist == artist_of_reference(c.artist),
        res.roles@ == c.roles@,
{
    let roles = c.roles.clone();
    proof {
        assert(roles@ =~= c.roles@);
    }
    AlbumReadModelCredit { artist: artist_from_reference(&c.artist), roles }
}

impl AlbumReadModel {
    /// The read model of a freshly parsed album page: the parsed fields as
    /// they are, with no duplicates recorded yet.
    pub fn from_parsed_album(file_name: &FileName, parsed_album: ParsedAlbum) -> (res: Self)
        ensures
            is_read_model_of_parsed(res, *file_name, parsed_album),
    {
        let mut artists: Vec<AlbumReadModelArtist> = Vec::new();
        for i in 0..parsed_album.artists.len()
            invariant
                artists@ == parsed_album.artists@.take(i as int).map_values(|r: ParsedArtistReference| artist_of_reference(r)),
        {
            let a = artist_from_reference(&parsed_album.artists[i]);
            artists.push(a);
            proof {
                assert(parsed_album.artists@.take(i + 1) =~= parsed_album.artists@.take(i as int).push(parsed_album.artists@[i as int]));
                assert(artists@ =~= parsed_album.artists@.take(i + 1).map_values(|r: ParsedArtistReference| artist_of_reference(r)));
            }
        }
        proof {
            assert(parsed_album.artists@.take(parsed_album.artists@.len() as int) =~= parsed_album.artists@);
        }
        let mut credits: Vec<AlbumReadModelCredit> = Vec::new();
        let n = parsed_album.credits.len();
        let mut i: usize = 0;
        while i < n
            invariant
                n == parsed_album.credits@.len(),
                i <= n,
                credits@.len() == i,
                forall|k: int| 0 <= k < i ==> {
                    &&& #[trigger] credits@[k].artist == artist_of_reference(parsed_album.credits@[k].artist)
                    &&& credits@[k].roles@ == parsed_album.credits@[k].roles@
                },
            decreases n - i,
        {
            let c = credit_from_parsed(&parsed_album.credits[i]);
            let ghost before = credits@;
            credits.push(c);
            proof {
                assert forall|k: int| 0 <= k < i + 1 implies {
                    &&& #[trigger] credits@[k].artist == artist_of_reference(parsed_album.credits@[k].artist)
                    &&& credits@[k].roles@ == parsed_album.credits@[k].roles@
                } by {
                    if k < i {
                        assert(credits@[k] == before[k]);
                    }
                }
            }
            i = i + 1;
        }
        AlbumReadModel {
            name: parsed_album.name,
            file_name: file_name.clone(),
            rating_count: parsed_album.rating_count,
            artists,
            primary_genres: parsed_album.primary_genres,
            secondary_genres: parsed_album.secondary_genres,
            descriptors: parsed_album.descriptors,
            release_date: parsed_album.release_date,
            languages: parsed_album.languages,
            credits,
            duplicate_of: None,
            duplicates: Vec::new(),
            cover_image_url: parsed_album.cover_image_url,
        }
    }
}

/// What `chrono::NaiveDate::parse_from_str` gives for a text and the
/// format `%Y-%m-%d`, as a calendar date, or none where it refuses the text.
pub uninterp spec fn spec_parse_release_date(text: Seq<char>) -> Option<CalendarDate>;

/// Parses a release date written as `%Y-%m-%d`.
///
/// Trusted: calls `chrono::NaiveDate::parse_from_str(text, "%Y-%m-%d")` and
/// converts the date it returns to its year, month and day; an error gives
/// none. chrono's parse depends on the text alone, so its result is named;
/// the format grammar (padding, signs, year range, calendar validity) is
/// chrono's and is not written out.
#[verifier::external_body]
fn parse_release_date(text: &str) -> (res: Option<CalendarDate>)
    ensures
        res == spec_parse_release_date(text@),
{
    match chrono::NaiveDate::parse_from_str(text, "%Y-%m-%d") {
        Ok(d) => Some(CalendarDate {
            year: chrono::Datelike::year(&d),
            month: chrono::Datelike::month(&d),
            day: chrono::Datelike::day(&d),
        }),
        Err(_) => None,
    }
}

/// The calendar date that a `%Y-%m-%d` text names, if chrono accepts it.
pub fn release_date_from_text(text: &str) -> (res: Option<CalendarDate>)
    ensures
        res == spec_parse_release_date(text@),
{
    parse_release_date(text)
}

} // verus!
