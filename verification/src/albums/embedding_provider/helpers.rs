//! The document that describes an album to an embedding service, and the
//! id under which its embedding is kept.
use crate::albums::album_read_model::{AlbumReadModel, AlbumReadModelArtist, AlbumReadModelCredit, CalendarDate};
use crate::text::{chars_of, decimal, join, join_strings, push_char, push_decimal, push_str};
use sha2::{Digest, Sha256};
use vstd::prelude::*;

verus! {

/// What SHA-256 gives for the UTF-8 encoding of a text.
pub uninterp spec fn spec_sha256(text: Seq<char>) -> Seq<u8>;

/// The SHA-256 digest of a text's UTF-8 bytes.
///
/// Trusted: calls `sha2::Sha256::new`, `update` and `finalize`. The digest
/// is named, not restated; the crate fixes its output size at 32 bytes.
#[verifier::external_body]
pub(crate) fn sha256_digest(text: &str) -> (res: Vec<u8>)
    ensures
        res@ == spec_sha256(text@),
        res@.len() == 32,
{
    let mut hasher = Sha256::new();
    hasher.update(text);
    hasher.finalize().to_vec()
}

/// The lower-case hexadecimal digit for `n < 16`.
pub open spec fn hex_digit(n: nat) -> char {
    if n < 10 {
        ('0' as nat + n) as char
    } else {
        ('a' as nat + n - 10) as char
    }
}

/// Bytes in lower-case hexadecimal, two digits per byte, as the `{:x}`
/// format of a digest writes them.
pub open spec fn spec_lower_hex(bytes: Seq<u8>) -> Seq<char>
    decreases bytes.len(),
{
    if bytes.len() == 0 {
        Seq::empty()
    } else {
        spec_lower_hex(bytes.drop_last()) + seq![
            hex_digit((bytes.last() / 16) as nat),
            hex_digit((bytes.last() % 16) as nat),
        ]
    }
}

fn hex_char(n: u8) -> (c: char)
    requires
        n < 16,
    ensures
        c == hex_digit(n as nat),
{
    if n < 10 {
        (48u8 + n) as char
    } else {
        (87u8 + n) as char
    }
}

/// Bytes in lower-case hexadecimal.
pub fn lower_hex(bytes: &Vec<u8>) -> (res: String)
    ensures
        res@ == spec_lower_hex(bytes@),
{
    let mut res = String::new();
    for i in 0..bytes.len()
        invariant
            res@ == spec_lower_hex(bytes@.take(i as int)),
    {
        let b = bytes[i];
        push_char(&mut res, hex_char(b / 16));
        push_char(&mut res, hex_char(b % 16));
        proof {
            assert(bytes@.take(i + 1).drop_last() =~= bytes@.take(i as int));
            assert(res@ =~= spec_lower_hex(bytes@.take(i + 1)));
        }
    }
    proof {
        assert(bytes@.take(bytes@.len() as int) =~= bytes@);
    }
    res
}

/// The id of a document: the SHA-256 digest of its text in lower-case
/// hexadecimal.
pub fn get_document_id(content: String) -> (res: String)
    ensures
        res@ == spec_lower_hex(spec_sha256(content@)),
{
    let digest = sha256_digest(content.as_str());
    lower_hex(&digest)
}

/// `s` preceded by zeros up to `width` characters.
pub open spec fn pad_zeros(s: Seq<char>, width: nat) -> Seq<char> {
    if s.len() >= width {
        s
    } else {
        Seq::new((width - s.len()) as nat, |i: int| '0') + s
    }
}

/// A date as chrono displays a `NaiveDate`: the year in four digits (with
/// its sign, and more digits where needed, outside 0 to 9999), then the
/// month and the day in two digits, separated by `-`.
pub open spec fn spec_iso_date(d: CalendarDate) -> Seq<char> {
    let y = d.year as int;
    let year_text = if 0 <= y <= 9999 {
        pad_zeros(decimal(y as nat), 4)
    } else if y < 0 {
        seq!['-'] + pad_zeros(decimal((-y) as nat), 4)
    } else {
        seq!['+'] + pad_zeros(decimal(y as nat), 4)
    };
    year_text + "-"@ + pad_zeros(decimal(d.month as nat), 2) + "-"@ + pad_zeros(
        decimal(d.day as nat),
        2,
    )
}

/// Appends `n` in decimal, preceded by zeros up to `width` digits.
pub fn push_zero_padded(s: &mut String, n: u64, width: usize)
    ensures
        final(s)@ == old(s)@ + pad_zeros(decimal(n as nat), width as nat),
{
    let mut digits = String::new();
    push_decimal(&mut digits, n);
    let len = chars_of(digits.as_str()).len();
    let ghost start = s@;
    if len < width {
        let mut k: usize = len;
        while k < width
            invariant
                len <= k <= width,
                len == decimal(n as nat).len(),
                s@ == start + Seq::new((k - len) as nat, |i: int| '0'),
            decreases width - k,
        {
            push_char(s, '0');
            proof {
                assert(s@ =~= start + Seq::new((k + 1 - len) as nat, |i: int| '0'));
            }
            k = k + 1;
        }
    }
    push_str(s, digits.as_str());
    proof {
        if len < width {
            assert(s@ =~= start + (Seq::new((width - len) as nat, |i: int| '0') + decimal(n as nat)));
        }
    }
}

/// Appends a date as chrono displays it.
pub fn push_iso_date(s: &mut String, d: CalendarDate)
    ensures
        final(s)@ == old(s)@ + spec_iso_date(d),
{
    let ghost start = s@;
    if 0 <= d.year && d.year <= 9999 {
        push_zero_padded(s, d.year as u64, 4);
    } else if d.year < 0 {
        push_char(s, '-');
        let magnitude: u64 = (-(d.year as i64)) as u64;
        push_zero_padded(s, magnitude, 4);
    } else {
        push_char(s, '+');
        push_zero_padded(s, d.year as u64, 4);
    }
    let ghost after_year = s@;
    push_char(s, '-');
    push_zero_padded(s, d.month as u64, 2);
    push_char(s, '-');
    push_zero_padded(s, d.day as u64, 2);
    proof {
        reveal_strlit("-");
        assert(s@ =~= start + spec_iso_date(d));
    }
}

/// The texts of a list of strings.
pub open spec fn strs(v: Seq<String>) -> Seq<Seq<char>> {
    v.map_values(|s: String| s@)
}

/// Appends copies of `items`.
pub fn push_all(out: &mut Vec<String>, items: &Vec<String>)
    ensures
        strs(final(out)@) == strs(old(out)@) + strs(items@),
{
    for i in 0..items.len()
        invariant
            strs(out@) == strs(old(out)@) + strs(items@.take(i as int)),
    {
        let ghost before = out@;
        let t = items[i].clone();
        out.push(t);
        proof {
            assert(out@ =~= before.push(t));
            assert(strs(out@) =~= strs(before).push(t@));
            assert(items@.take(i + 1) =~= items@.take(i as int).push(items@[i as int]));
            assert(strs(items@.take(i + 1)) =~= strs(items@.take(i as int)).push(items@[i as int]@));
        }
    }
    proof {
        assert(items@.take(items@.len() as int) =~= items@);
    }
}

/// The names of the artists.
pub open spec fn artist_names(artists: Seq<AlbumReadModelArtist>) -> Seq<Seq<char>> {
    artists.map_values(|a: AlbumReadModelArtist| a.name@)
}

/// The names of the credited artists, credit by credit.
pub open spec fn credit_artist_names(credits: Seq<AlbumReadModelCredit>) -> Seq<Seq<char>> {
    credits.map_values(|c: AlbumReadModelCredit| c.artist.name@)
}

/// Appends the names of the artists.
pub fn push_artist_names(out: &mut Vec<String>, artists: &Vec<AlbumReadModelArtist>)
    ensures
        strs(final(out)@) == strs(old(out)@) + artist_names(artists@),
{
    for i in 0..artists.len()
        invariant
            strs(out@) == strs(old(out)@) + artist_names(artists@.take(i as int)),
    {
        let ghost before = out@;
        let t = artists[i].name.clone();
        out.push(t);
        proof {
            assert(out@ =~= before.push(t));
            assert(strs(out@) =~= strs(before).push(t@));
            assert(artists@.take(i + 1) =~= artists@.take(i as int).push(artists@[i as int]));
            assert(artist_names(artists@.take(i + 1)) =~= artist_names(artists@.take(i as int)).push(
                artists@[i as int].name@,
            ));
        }
    }
    proof {
        assert(artists@.take(artists@.len() as int) =~= artists@);
    }
}

/// Appends the names of the credited artists.
pub fn push_credit_artist_names(out: &mut Vec<String>, credits: &Vec<AlbumReadModelCredit>)
    ensures
        strs(final(out)@) == strs(old(out)@) + credit_artist_names(credits@),
{
    for i in 0..credits.len()
        invariant
            strs(out@) == strs(old(out)@) + credit_artist_names(credits@.take(i as int)),
    {
        let ghost before = out@;
        let t = credits[i].artist.name.clone();
        out.push(t);
        proof {
            assert(out@ =~= before.push(t));
            assert(strs(out@) =~= strs(before).push(t@));
            assert(credits@.take(i + 1) =~= credits@.take(i as int).push(credits@[i as int]));
            assert(credit_artist_names(credits@.take(i + 1)) =~= credit_artist_names(
                credits@.take(i as int),
            ).push(credits@[i as int].artist.name@));
        }
    }
    proof {
        assert(credits@.take(credits@.len() as int) =~= credits@);
    }
}

/// The parts of the text that describes an album to an embedding service:
/// its rating as the application writes it, its rating count, its release
/// date if known, its artists, genres, descriptors, languages and credited
/// artists.
pub open spec fn spec_api_body_parts(album: AlbumReadModel, rating_text: Seq<char>) -> Seq<Seq<char>> {
    seq![rating_text, decimal(album.rating_count as nat)] + match album.release_date {
        Some(d) => seq![spec_iso_date(d)],
        None => Seq::empty(),
    } + artist_names(album.artists@) + strs(album.primary_genres@) + strs(album.secondary_genres@)
        + strs(album.descriptors@) + strs(album.languages@) + credit_artist_names(album.credits@)
}

/// The id and the text that describe an album to an embedding service: the
/// parts of [`spec_api_body_parts`] joined with `, `, and the document id of
/// that text. `rating_text` is the album's rating as text.
pub fn get_embedding_api_input(album: &AlbumReadModel, rating_text: &str) -> (res: (String, String))
    ensures
        res.1@ == join(spec_api_body_parts(*album, rating_text@), ", "@),
        res.0@ == spec_lower_hex(spec_sha256(res.1@)),
{
    let mut parts: Vec<String> = Vec::new();
    parts.push(rating_text.to_owned());
    let mut count = String::new();
    push_decimal(&mut count, album.rating_count as u64);
    parts.push(count);
    proof {
        assert(strs(parts@) =~= seq![rating_text@, decimal(album.rating_count as nat)]);
    }
    match album.release_date {
        Some(d) => {
            let mut date = String::new();
            push_iso_date(&mut date, d);
            let ghost before = parts@;
            parts.push(date);
            proof {
                assert(parts@ =~= before.push(date));
                assert(strs(parts@) =~= strs(before).push(date@));
            }
        },
        None => {},
    }
    let ghost head = strs(parts@);
    push_artist_names(&mut parts, &album.artists);
    push_all(&mut parts, &album.primary_genres);
    push_all(&mut parts, &album.secondary_genres);
    push_all(&mut parts, &album.descriptors);
    push_all(&mut parts, &album.languages);
    push_credit_artist_names(&mut parts, &album.credits);
    proof {
        assert(head =~= seq![rating_text@, decimal(album.rating_count as nat)] + match album.release_date {
            Some(d) => seq![spec_iso_date(d)],
            None => Seq::empty(),
        });
        assert(strs(parts@) =~= spec_api_body_parts(*album, rating_text@));
    }
    let body = join_strings(&parts, ", ");
    let id = get_document_id(body.clone());
    (id, body)
}

/// The character of a base64 digit `n < 64` in the standard alphabet.
pub open spec fn base64_digit(n: nat) -> char {
    if n < 26 {
        ('A' as nat + n) as char
    } else if n < 52 {
        ('a' as nat + n - 26) as char
    } else if n < 62 {
        ('0' as nat + n - 52) as char
    } else if n == 62 {
        '+'
    } else {
        '/'
    }
}

/// Bytes in standard base64 with padding (RFC 4648, section 4): each three
/// bytes become four digits; a last group of one or two bytes is padded
/// with `=`.
pub open spec fn spec_base64(b: Seq<u8>) -> Seq<char>
    decreases b.len(),
{
    if b.len() == 0 {
        Seq::empty()
    } else if b.len() == 1 {
        seq![base64_digit((b[0] / 4) as nat), base64_digit(((b[0] % 4) * 16) as nat), '=', '=']
    } else if b.len() == 2 {
        seq![
            base64_digit((b[0] / 4) as nat),
            base64_digit(((b[0] % 4) * 16 + b[1] / 16) as nat),
            base64_digit(((b[1] % 16) * 4) as nat),
            '=',
        ]
    } else {
        seq![
            base64_digit((b[0] / 4) as nat),
            base64_digit(((b[0] % 4) * 16 + b[1] / 16) as nat),
            base64_digit(((b[1] % 16) * 4 + b[2] / 64) as nat),
            base64_digit((b[2] % 64) as nat),
        ] + spec_base64(b.skip(3))
    }
}

/// Encodes bytes in base64.
///
/// Trusted: calls `data_encoding::BASE64.encode`, which the crate documents
/// as the standard, padded base64 of RFC 4648; the contract restates that
/// encoding. The encoder asserts that the input is at most
/// `usize::MAX / 512` bytes long, so longer inputs are left out.
#[verifier::external_body]
fn base64_encode(bytes: &Vec<u8>) -> (res: String)
    requires
        bytes@.len() <= usize::MAX / 512,
    ensures
        res@ == spec_base64(bytes@),
{
    data_encoding::BASE64.encode(bytes.as_slice())
}

/// The SHA-256 digest of a text's UTF-8 bytes in base64, by which a
/// serialised album is fingerprinted.
pub fn digest_base64(text: &str) -> (res: String)
    ensures
        res@ == spec_base64(spec_sha256(text@)),
{
    let digest = sha256_digest(text);
    base64_encode(&digest)
}

/// The parts of the text that describes an album, position by position:
/// the rating text, the rating count, the release date if known, then the
/// names of its artists, its primary genres, secondary genres, descriptors,
/// languages and the names of its credited artists, each in order. Every
/// secondary genre is thus a part of the text, after the primary genres and
/// before the descriptors.
pub proof fn lemma_api_body_part_positions(album: AlbumReadModel, rating_text: Seq<char>)
    ensures
        ({
            let t = spec_api_body_parts(album, rating_text);
            let o_a: int = 2 + if album.release_date is Some { 1int } else { 0int };
            let o_p: int = o_a + album.artists@.len();
            let o_s: int = o_p + album.primary_genres@.len();
            let o_d: int = o_s + album.secondary_genres@.len();
            let o_l: int = o_d + album.descriptors@.len();
            let o_c: int = o_l + album.languages@.len();
            &&& t.len() == o_c + album.credits@.len()
            &&& t[0] == rating_text
            &&& t[1] == decimal(album.rating_count as nat)
            &&& album.release_date matches Some(d) ==> t[2] == spec_iso_date(d)
            &&& forall|i: int| 0 <= i < album.artists@.len() ==> t[o_a + i] == (#[trigger] album.artists@[i]).name@
            &&& forall|i: int| 0 <= i < album.primary_genres@.len() ==> t[o_p + i] == (#[trigger] album.primary_genres@[i])@
            &&& forall|i: int| 0 <= i < album.secondary_genres@.len() ==> t[o_s + i] == (#[trigger] album.secondary_genres@[i])@
            &&& forall|i: int| 0 <= i < album.descriptors@.len() ==> t[o_d + i] == (#[trigger] album.descriptors@[i])@
            &&& forall|i: int| 0 <= i < album.languages@.len() ==> t[o_l + i] == (#[trigger] album.languages@[i])@
            &&& forall|i: int| 0 <= i < album.credits@.len() ==> t[o_c + i] == (#[trigger] album.credits@[i]).artist.name@
        }),
{
    let t = spec_api_body_parts(album, rating_text);
    let h = seq![rating_text, decimal(album.rating_count as nat)] + match album.release_date {
        Some(d) => seq![spec_iso_date(d)],
        None => Seq::<Seq<char>>::empty(),
    };
    let a = artist_names(album.artists@);
    let p = strs(album.primary_genres@);
    let s2 = strs(album.secondary_genres@);
    let d = strs(album.descriptors@);
    let l = strs(album.languages@);
    let c = credit_artist_names(album.credits@);
    assert(t =~= h + a + p + s2 + d + l + c);
    let o_a: int = h.len() as int;
    let o_p: int = o_a + a.len();
    let o_s: int = o_p + p.len();
    let o_d: int = o_s + s2.len();
    let o_l: int = o_d + d.len();
    let o_c: int = o_l + l.len();
    assert(t[0] == h[0]);
    assert(t[1] == h[1]);
    if album.release_date is Some {
        assert(t[2] == h[2]);
    }
    assert forall|i: int| 0 <= i < album.artists@.len() implies t[o_a + i] == (#[trigger] album.artists@[i]).name@ by {
        assert(t[o_a + i] == a[i]);
    }
    assert forall|i: int| 0 <= i < album.primary_genres@.len() implies t[o_p + i] == (#[trigger] album.primary_genres@[i])@ by {
        assert(t[o_p + i] == p[i]);
    }
    assert forall|i: int| 0 <= i < album.secondary_genres@.len() implies t[o_s + i] == (#[trigger] album.secondary_genres@[i])@ by {
        assert(t[o_s + i] == s2[i]);
    }
    assert forall|i: int| 0 <= i < album.descriptors@.len() implies t[o_d + i] == (#[trigger] album.descriptors@[i])@ by {
        assert(t[o_d + i] == d[i]);
    }
    assert forall|i: int| 0 <= i < album.languages@.len() implies t[o_l + i] == (#[trigger] album.languages@[i])@ by {
        assert(t[o_l + i] == l[i]);
    }
    assert forall|i: int| 0 <= i < album.credits@.len() implies t[o_c + i] == (#[trigger] album.credits@[i]).artist.name@ by {
        assert(t[o_c + i] == c[i]);
    }
}

} // verus!
