//! The relational rows of a batch of parsed-album events: for each album page
//! the last event's album, artist links, tracks and credits, and for each
//! artist page the last name given to it.
use crate::albums::album_read_model::{CalendarDate, release_date_from_text, spec_parse_release_date};
use crate::parsed::{ParsedArtistReference, ParsedCredit, ParsedTrack};
use vstd::prelude::*;

verus! {

/// A parsed album as the event stream carries it, its release date still
/// text. Its ratings are floating-point figures that the application
/// carries beside it.
pub struct AlbumMessage {
    pub name: String,
    pub rating_count: u32,
    pub artists: Vec<ParsedArtistReference>,
    pub primary_genres: Vec<String>,
    pub secondary_genres: Vec<String>,
    pub descriptors: Vec<String>,
    pub tracks: Vec<ParsedTrack>,
    pub release_date: Option<String>,
    pub languages: Vec<String>,
    pub credits: Vec<ParsedCredit>,
}

/// An album page that was parsed, and what was parsed.
pub struct ParsedAlbumEvent {
    pub file_name: String,
    pub album: AlbumMessage,
}

/// The album row.
pub struct AlbumRow {
    pub file_name: String,
    pub name: String,
    pub rating_count: i32,
    pub primary_genres: Vec<String>,
    pub secondary_genres: Vec<String>,
    pub descriptors: Vec<String>,
    pub languages: Vec<String>,
    pub release_date: Option<CalendarDate>,
}

/// A track row of an album.
pub struct TrackRow {
    pub name: String,
    pub duration_seconds: Option<i32>,
    pub position: Option<String>,
}

/// A credit row of an album.
pub struct CreditRow {
    pub artist_file_name: String,
    pub roles: Vec<String>,
}

/// The rows that belong to one album: the album, the page names of its
/// artists, its tracks and its credits.
pub struct AlbumRowGroup {
    pub album: AlbumRow,
    pub artist_file_names: Vec<String>,
    pub tracks: Vec<TrackRow>,
    pub credits: Vec<CreditRow>,
}

/// An artist row.
pub struct ArtistRow {
    pub file_name: String,
    pub name: String,
}

/// The rows of a batch.
pub struct AlbumRows {
    pub albums: Vec<AlbumRowGroup>,
    pub artists: Vec<ArtistRow>,
}

/// The release date stored for an event: none where the text is missing or
/// chrono refuses it.
pub open spec fn event_release_date(album: AlbumMessage) -> Option<CalendarDate> {
    match album.release_date {
        Some(t) => spec_parse_release_date(t@),
        None => None,
    }
}

/// `t` is the row of track `p`.
pub open spec fn is_track_row(t: TrackRow, p: ParsedTrack) -> bool {
    &&& t.name == p.name
    &&& t.duration_seconds == match p.duration_seconds {
        Some(d) => Some(d as i32),
        None => None,
    }
    &&& t.position == p.position
}

/// `g` holds the rows of album `album` at page `file_name`, released on
/// `date`.
pub open spec fn is_group_of(g: AlbumRowGroup, file_name: String, album: AlbumMessage, date: Option<CalendarDate>) -> bool {
    &&& g.album.file_name == file_name
    &&& g.album.name == album.name
    &&& g.album.rating_count == album.rating_count as i32
    &&& g.album.primary_genres@ == album.primary_genres@
    &&& g.album.secondary_genres@ == album.secondary_genres@
    &&& g.album.descriptors@ == album.descriptors@
    &&& g.album.languages@ == album.languages@
    &&& g.album.release_date == date
    &&& g.artist_file_names@ == album.artists@.map_values(|a: ParsedArtistReference| a.file_name.0)
    &&& g.tracks@.len() == album.tracks@.len()
    &&& forall|i: int| 0 <= i < g.tracks@.len() ==> is_track_row(#[trigger] g.tracks@[i], album.tracks@[i])
    &&& g.credits@.len() == album.credits@.len()
    &&& forall|i: int| 0 <= i < g.credits@.len() ==> {
        &&& #[trigger] g.credits@[i].artist_file_name == album.credits@[i].artist.file_name.0
        &&& g.credits@[i].roles@ == album.credits@[i].roles@
    }
}

/// The last event of `batch` for page `f`.
pub open spec fn last_event(batch: Seq<ParsedAlbumEvent>, f: Seq<char>) -> Option<ParsedAlbumEvent>
    decreases batch.len(),
{
    if batch.len() == 0 {
        None
    } else if batch.last().file_name@ == f {
        Some(batch.last())
    } else {
        last_event(batch.drop_last(), f)
    }
}

/// `g` holds the rows of the last event of `batch` for its page.
pub open spec fn is_kept_group(batch: Seq<ParsedAlbumEvent>, g: AlbumRowGroup) -> bool {
    match last_event(batch, g.album.file_name@) {
        Some(e) => is_group_of(g, e.file_name, e.album, event_release_date(e.album)),
        None => false,
    }
}

/// Some group of `groups` is for page `f`.
pub open spec fn has_group(groups: Seq<AlbumRowGroup>, f: Seq<char>) -> bool {
    exists|a: int| 0 <= a < groups.len() && #[trigger] groups[a].album.file_name@ == f
}

/// The artists an album names, page name and name, in order: its own
/// artists, then the artist of each credit.
pub open spec fn album_artist_entries(album: AlbumMessage) -> Seq<(Seq<char>, Seq<char>)> {
    album.artists@.map_values(|a: ParsedArtistReference| (a.file_name@, a.name@))
        + album.credits@.map_values(|c: ParsedCredit| (c.artist.file_name@, c.artist.name@))
}

/// The artists that a batch names, event by event.
pub open spec fn batch_artist_entries(batch: Seq<ParsedAlbumEvent>) -> Seq<(Seq<char>, Seq<char>)>
    decreases batch.len(),
{
    if batch.len() == 0 {
        Seq::empty()
    } else {
        batch_artist_entries(batch.drop_last()) + album_artist_entries(batch.last().album)
    }
}

/// The last name that `entries` give to page `f`.
pub open spec fn last_name(entries: Seq<(Seq<char>, Seq<char>)>, f: Seq<char>) -> Option<Seq<char>>
    decreases entries.len(),
{
    if entries.len() == 0 {
        None
    } else if entries.last().0 == f {
        Some(entries.last().1)
    } else {
        last_name(entries.drop_last(), f)
    }
}

/// `rows` holds one row per page that `entries` name, with the last name
/// they give it.
pub open spec fn is_last_names(entries: Seq<(Seq<char>, Seq<char>)>, rows: Seq<ArtistRow>) -> bool {
    &&& forall|a: int, b: int| 0 <= a < b < rows.len() ==> rows[a].file_name@ != rows[b].file_name@
    &&& forall|a: int| 0 <= a < rows.len() ==> last_name(entries, #[trigger] rows[a].file_name@) == Some(rows[a].name@)
    &&& forall|k: int| 0 <= k < entries.len() ==> exists|a: int| 0 <= a < rows.len() && #[trigger] rows[a].file_name@ == #[trigger] entries[k].0
}

fn clone_strings(v: &Vec<String>) -> (res: Vec<String>)
    ensures
        res@ == v@,
{
    let res = v.clone();
    proof {
        assert(res@ =~= v@);
    }
    res
}

/// The rows of one album at page `file_name`, released on `release_date`.
pub fn album_row_group(file_name: &String, album: &AlbumMessage, release_date: Option<CalendarDate>) -> (res: AlbumRowGroup)
    ensures
        is_group_of(res, *file_name, *album, release_date),
{
    let row = AlbumRow {
        file_name: file_name.clone(),
        name: album.name.clone(),
        rating_count: album.rating_count as i32,
        primary_genres: clone_strings(&album.primary_genres),
        secondary_genres: clone_strings(&album.secondary_genres),
        descriptors: clone_strings(&album.descriptors),
        languages: clone_strings(&album.languages),
        release_date,
    };
    let mut artist_file_names: Vec<String> = Vec::new();
    for i in 0..album.artists.len()
        invariant
            artist_file_names@ == album.artists@.take(i as int).map_values(|a: ParsedArtistReference| a.file_name.0),
    {
        artist_file_names.push(album.artists[i].file_name.0.clone());
        proof {
            assert(album.artists@.take(i + 1) =~= album.artists@.take(i as int).push(album.artists@[i as int]));
            assert(artist_file_names@ =~= album.artists@.take(i + 1).map_values(|a: ParsedArtistReference| a.file_name.0));
        }
    }
    proof {
        assert(album.artists@.take(album.artists@.len() as int) =~= album.artists@);
    }
    let mut tracks: Vec<TrackRow> = Vec::new();
    let n = album.tracks.len();
    let mut i: usize = 0;
    while i < n
        invariant
            n == album.tracks@.len(),
            i <= n,
            tracks@.len() == i,
            forall|k: int| 0 <= k < i ==> is_track_row(#[trigger] tracks@[k], album.tracks@[k]),
        decreases n - i,
    {
        let t = &album.tracks[i];
        let duration_seconds = match t.duration_seconds {
            Some(d) => Some(d as i32),
            None => None,
        };
        let position = match &t.position {
            Some(p) => Some(p.clone()),
            None => None,
        };
        let ghost before = tracks@;
        tracks.push(TrackRow { name: t.name.clone(), duration_seconds, position });
        proof {
            assert forall|k: int| 0 <= k < i + 1 implies is_track_row(#[trigger] tracks@[k], album.tracks@[k]) by {
                if k < i {
                    assert(tracks@[k] == before[k]);
                }
            }
        }
        i = i + 1;
    }
    let mut credits: Vec<CreditRow> = Vec::new();
    let m = album.credits.len();
    let mut j: usize = 0;
    while j < m
        invariant
            m == album.credits@.len(),
            j <= m,
            credits@.len() == j,
            forall|k: int| 0 <= k < j ==> {
                &&& #[trigger] credits@[k].artist_file_name == album.credits@[k].artist.file_name.0
                &&& credits@[k].roles@ == album.credits@[k].roles@
            },
        decreases m - j,
    {
        let c = &album.credits[j];
        let ghost before = credits@;
        credits.push(CreditRow { artist_file_name: c.artist.file_name.0.clone(), roles: clone_strings(&c.roles) });
        proof {
            assert forall|k: int| 0 <= k < j + 1 implies {
                &&& #[trigger] credits@[k].artist_file_name == album.credits@[k].artist.file_name.0
                &&& credits@[k].roles@ == album.credits@[k].roles@
            } by {
                if k < j {
                    assert(credits@[k] == before[k]);
                }
            }
        }
        j = j + 1;
    }
    AlbumRowGroup { album: row, artist_file_names, tracks, credits }
}

/// Records that `entries` gave page `f` the name `n`.
fn upsert_artist(rows: &mut Vec<ArtistRow>, f: &String, n: &String, Ghost(entries): Ghost<Seq<(Seq<char>, Seq<char>)>>)
    requires
        is_last_names(entries, old(rows)@),
    ensures
        is_last_names(entries.push((f@, n@)), final(rows)@),
{
    let ghost post = entries.push((f@, n@));
    proof {
        assert(post.drop_last() =~= entries);
        assert forall|g: Seq<char>| #[trigger] last_name(post, g) == if g == f@ {
            Some(n@)
        } else {
            last_name(entries, g)
        } by {}
    }
    let mut j: usize = 0;
    while j < rows.len() && !(rows[j].file_name == *f)
        invariant
            j <= rows@.len(),
            forall|a: int| 0 <= a < j ==> rows@[a].file_name@ != f@,
        decreases rows@.len() - j,
    {
        j = j + 1;
    }
    let ghost old_rows = rows@;
    if j < rows.len() {
        rows.set(j, ArtistRow { file_name: f.clone(), name: n.clone() });
        proof {
            assert forall|a: int| 0 <= a < rows@.len() implies last_name(post, #[trigger] rows@[a].file_name@) == Some(rows@[a].name@) by {
                if a != j {
                    assert(rows@[a] == old_rows[a]);
                }
            }
            assert forall|k: int| 0 <= k < post.len() implies exists|a: int| 0 <= a < rows@.len() && #[trigger] rows@[a].file_name@ == #[trigger] post[k].0 by {
                if k < entries.len() {
                    assert(post[k] == entries[k]);
                    let a = choose|a: int| 0 <= a < old_rows.len() && #[trigger] old_rows[a].file_name@ == entries[k].0;
                    if a == j {
                        assert(rows@[j as int].file_name@ == post[k].0);
                    } else {
                        assert(rows@[a] == old_rows[a]);
                    }
                } else {
                    assert(rows@[j as int].file_name@ == post[k].0);
                }
            }
            assert forall|a: int, b: int| 0 <= a < b < rows@.len() implies rows@[a].file_name@ != rows@[b].file_name@ by {
                if a != j {
                    assert(rows@[a] == old_rows[a]);
                }
                if b != j {
                    assert(rows@[b] == old_rows[b]);
                }
            }
        }
    } else {
        rows.push(ArtistRow { file_name: f.clone(), name: n.clone() });
        proof {
            assert forall|a: int| 0 <= a < rows@.len() implies last_name(post, #[trigger] rows@[a].file_name@) == Some(rows@[a].name@) by {
                if a < old_rows.len() {
                    assert(rows@[a] == old_rows[a]);
                }
            }
            assert forall|k: int| 0 <= k < post.len() implies exists|a: int| 0 <= a < rows@.len() && #[trigger] rows@[a].file_name@ == #[trigger] post[k].0 by {
                if k < entries.len() {
                    assert(post[k] == entries[k]);
                    let a = choose|a: int| 0 <= a < old_rows.len() && #[trigger] old_rows[a].file_name@ == entries[k].0;
                    assert(rows@[a] == old_rows[a]);
                } else {
                    assert(rows@[old_rows.len() as int].file_name@ == post[k].0);
                }
            }
            assert forall|a: int, b: int| 0 <= a < b < rows@.len() implies rows@[a].file_name@ != rows@[b].file_name@ by {
                assert(rows@[a] == old_rows[a]);
                if b < old_rows.len() {
                    assert(rows@[b] == old_rows[b]);
                }
            }
        }
    }
}

/// Records the artists that one album names, in order.
fn upsert_album_artists(rows: &mut Vec<ArtistRow>, album: &AlbumMessage, Ghost(entries): Ghost<Seq<(Seq<char>, Seq<char>)>>)
    requires
        is_last_names(entries, old(rows)@),
    ensures
        is_last_names(entries + album_artist_entries(*album), final(rows)@),
{
    let ghost own = album.artists@.map_values(|a: ParsedArtistReference| (a.file_name@, a.name@));
    let ghost credited = album.credits@.map_values(|c: ParsedCredit| (c.artist.file_name@, c.artist.name@));
    for i in 0..album.artists.len()
        invariant
            own == album.artists@.map_values(|a: ParsedArtistReference| (a.file_name@, a.name@)),
            is_last_names(entries + own.take(i as int), rows@),
    {
        let a = &album.artists[i];
        upsert_artist(rows, &a.file_name.0, &a.name, Ghost(entries + own.take(i as int)));
        proof {
            assert((entries + own.take(i as int)).push((a.file_name@, a.name@)) =~= entries + own.take(i + 1));
        }
    }
    proof {
        assert(own.take(own.len() as int) =~= own);
    }
    for i in 0..album.credits.len()
        invariant
            own == album.artists@.map_values(|a: ParsedArtistReference| (a.file_name@, a.name@)),
            credited == album.credits@.map_values(|c: ParsedCredit| (c.artist.file_name@, c.artist.name@)),
            is_last_names(entries + own + credited.take(i as int), rows@),
    {
        let c = &album.credits[i];
        upsert_artist(rows, &c.artist.file_name.0, &c.artist.name, Ghost(entries + own + credited.take(i as int)));
        proof {
            assert((entries + own + credited.take(i as int)).push((c.artist.file_name@, c.artist.name@)) =~= entries + own + credited.take(i + 1));
        }
    }
    proof {
        assert(credited.take(credited.len() as int) =~= credited);
        assert(entries + own + credited =~= entries + album_artist_entries(*album));
    }
}

/// The rows of a batch of parsed-album events. Each album page keeps the
/// rows of its last event; each artist page keeps the last name that the
/// batch gives it, an album's credited artists coming after its own.
pub fn album_rows(batch: &Vec<ParsedAlbumEvent>) -> (res: AlbumRows)
    ensures
        forall|a: int, b: int| 0 <= a < b < res.albums@.len() ==> res.albums@[a].album.file_name@ != res.albums@[b].album.file_name@,
        forall|a: int| 0 <= a < res.albums@.len() ==> is_kept_group(batch@, #[trigger] res.albums@[a]),
        forall|k: int| 0 <= k < batch@.len() ==> has_group(res.albums@, #[trigger] batch@[k].file_name@),
        is_last_names(batch_artist_entries(batch@), res.artists@),
{
    let mut albums: Vec<AlbumRowGroup> = Vec::new();
    let mut artists: Vec<ArtistRow> = Vec::new();
    for i in 0..batch.len()
        invariant
            forall|a: int, b: int| 0 <= a < b < albums@.len() ==> albums@[a].album.file_name@ != albums@[b].album.file_name@,
            forall|a: int| 0 <= a < albums@.len() ==> is_kept_group(batch@.take(i as int), #[trigger] albums@[a]),
            forall|k: int| 0 <= k < i ==> has_group(albums@, #[trigger] batch@[k].file_name@),
            is_last_names(batch_artist_entries(batch@.take(i as int)), artists@),
    {
        let ghost pre = batch@.take(i as int);
        let ghost post = batch@.take(i + 1);
        let e = &batch[i];
        proof {
            assert(post.drop_last() =~= pre);
            assert(post.last() == *e);
            assert forall|f: Seq<char>| #[trigger] last_event(post, f) == if e.file_name@ == f {
                Some(*e)
            } else {
                last_event(pre, f)
            } by {}
        }
        upsert_album_artists(&mut artists, &e.album, Ghost(batch_artist_entries(pre)));
        let date = match &e.album.release_date {
            Some(t) => release_date_from_text(t.as_str()),
            None => None,
        };
        let g = album_row_group(&e.file_name, &e.album, date);
        let mut j: usize = 0;
        while j < albums.len() && !(albums[j].album.file_name == e.file_name)
            invariant
                j <= albums@.len(),
                forall|a: int| 0 <= a < j ==> albums@[a].album.file_name@ != e.file_name@,
            decreases albums@.len() - j,
        {
            j = j + 1;
        }
        let ghost old_albums = albums@;
        if j < albums.len() {
            albums.set(j, g);
            proof {
                assert forall|a: int| 0 <= a < albums@.len() implies is_kept_group(post, #[trigger] albums@[a]) by {
                    if a != j {
                        assert(albums@[a] == old_albums[a]);
                        assert(is_kept_group(pre, old_albums[a]));
                    }
                }
                assert forall|k: int| 0 <= k < i + 1 implies has_group(albums@, #[trigger] batch@[k].file_name@) by {
                    if k < i {
                        assert(has_group(old_albums, batch@[k].file_name@));
                        let a = choose|a: int| 0 <= a < old_albums.len() && #[trigger] old_albums[a].album.file_name@ == batch@[k].file_name@;
                        if a != j {
                            assert(albums@[a] == old_albums[a]);
                        } else {
                            assert(albums@[j as int].album.file_name@ == batch@[k].file_name@);
                        }
                    } else {
                        assert(albums@[j as int].album.file_name@ == batch@[k].file_name@);
                    }
                }
                assert forall|a: int, b: int| 0 <= a < b < albums@.len() implies albums@[a].album.file_name@ != albums@[b].album.file_name@ by {
                    if a != j {
                        assert(albums@[a] == old_albums[a]);
                    }
                    if b != j {
                        assert(albums@[b] == old_albums[b]);
                    }
                }
            }
        } else {
            albums.push(g);
            proof {
                assert forall|a: int| 0 <= a < albums@.len() implies is_kept_group(post, #[trigger] albums@[a]) by {
                    if a < old_albums.len() {
                        assert(albums@[a] == old_albums[a]);
                        assert(is_kept_group(pre, old_albums[a]));
                    }
                }
                assert forall|k: int| 0 <= k < i + 1 implies has_group(albums@, #[trigger] batch@[k].file_name@) by {
                    if k < i {
                        assert(has_group(old_albums, batch@[k].file_name@));
                        let a = choose|a: int| 0 <= a < old_albums.len() && #[trigger] old_albums[a].album.file_name@ == batch@[k].file_name@;
                        assert(albums@[a] == old_albums[a]);
                    } else {
                        assert(albums@[old_albums.len() as int].album.file_name@ == batch@[k].file_name@);
                    }
                }
                assert forall|a: int, b: int| 0 <= a < b < albums@.len() implies albums@[a].album.file_name@ != albums@[b].album.file_name@ by {
                    assert(albums@[a] == old_albums[a]);
                    if b < old_albums.len() {
                        assert(albums@[b] == old_albums[b]);
                    }
                }
            }
        }
    }
    proof {
        assert(batch@.take(batch@.len() as int) =~= batch@);
    }
    AlbumRows { albums, artists }
}

} // verus!
