//! The graph updates that record a parsed album: the album node, its
//! artists and the artists it credits, its genres and descriptors, and the
//! edges between them, in the order they are written.
use crate::albums::album_read_model::{CalendarDate, release_date_from_text, spec_parse_release_date};
use crate::connectors::album_rows::AlbumMessage;
use crate::parsed::{ParsedArtistReference, ParsedCredit};
use vstd::prelude::*;

verus! {

/// One update of the graph. The album's rating, a floating-point figure, is
/// set by the application beside the album node.
pub enum GraphUpdate {
    /// Merge the album node and set its name, rating count and release date.
    MergeAlbum { file_name: String, name: String, rating_count: i64, release_date: Option<CalendarDate> },
    /// Merge an artist node and set its name.
    MergeArtist { file_name: String, name: String },
    /// The artist created the album.
    LinkCreated { album_file_name: String, artist_file_name: String },
    /// The artist is credited on the album with a role.
    LinkCredited { album_file_name: String, artist_file_name: String, role: String },
    /// Merge a genre node.
    MergeGenre { name: String },
    /// The album has a primary genre.
    LinkPrimaryGenre { album_file_name: String, genre: String },
    /// The album has a secondary genre.
    LinkSecondaryGenre { album_file_name: String, genre: String },
    /// Merge a descriptor node.
    MergeDescriptor { name: String },
    /// The album has a descriptor.
    LinkDescriptor { album_file_name: String, descriptor: String },
}

/// An update with its texts taken by their characters.
pub enum GraphUpdateView {
    MergeAlbum { file_name: Seq<char>, name: Seq<char>, rating_count: i64, release_date: Option<CalendarDate> },
    MergeArtist { file_name: Seq<char>, name: Seq<char> },
    LinkCreated { album_file_name: Seq<char>, artist_file_name: Seq<char> },
    LinkCredited { album_file_name: Seq<char>, artist_file_name: Seq<char>, role: Seq<char> },
    MergeGenre { name: Seq<char> },
    LinkPrimaryGenre { album_file_name: Seq<char>, genre: Seq<char> },
    LinkSecondaryGenre { album_file_name: Seq<char>, genre: Seq<char> },
    MergeDescriptor { name: Seq<char> },
    LinkDescriptor { album_file_name: Seq<char>, descriptor: Seq<char> },
}

impl View for GraphUpdate {
    type V = GraphUpdateView;

    open spec fn view(&self) -> GraphUpdateView {
        match self {
            GraphUpdate::MergeAlbum { file_name, name, rating_count, release_date } => GraphUpdateView::MergeAlbum {
                file_name: file_name@,
                name: name@,
                rating_count: *rating_count,
                release_date: *release_date,
            },
            GraphUpdate::MergeArtist { file_name, name } => GraphUpdateView::MergeArtist { file_name: file_name@, name: name@ },
            GraphUpdate::LinkCreated { album_file_name, artist_file_name } => GraphUpdateView::LinkCreated {
                album_file_name: album_file_name@,
                artist_file_name: artist_file_name@,
            },
            GraphUpdate::LinkCredited { album_file_name, artist_file_name, role } => GraphUpdateView::LinkCredited {
                album_file_name: album_file_name@,
                artist_file_name: artist_file_name@,
                role: role@,
            },
            GraphUpdate::MergeGenre { name } => GraphUpdateView::MergeGenre { name: name@ },
            GraphUpdate::LinkPrimaryGenre { album_file_name, genre } => GraphUpdateView::LinkPrimaryGenre {
                album_file_name: album_file_name@,
                genre: genre@,
            },
            GraphUpdate::LinkSecondaryGenre { album_file_name, genre } => GraphUpdateView::LinkSecondaryGenre {
                album_file_name: album_file_name@,
                genre: genre@,
            },
            GraphUpdate::MergeDescriptor { name } => GraphUpdateView::MergeDescriptor { name: name@ },
            GraphUpdate::LinkDescriptor { album_file_name, descriptor } => GraphUpdateView::LinkDescriptor {
                album_file_name: album_file_name@,
                descriptor: descriptor@,
            },
        }
    }
}

/// The updates taken by their views.
pub open spec fn updates_view(v: Seq<GraphUpdate>) -> Seq<GraphUpdateView> {
    v.map_values(|u: GraphUpdate| u@)
}

/// Each artist of the album is merged, then linked as its creator.
pub open spec fn artist_updates(album: Seq<char>, artists: Seq<ParsedArtistReference>) -> Seq<GraphUpdateView>
    decreases artists.len(),
{
    if artists.len() == 0 {
        Seq::empty()
    } else {
        let a = artists.last();
        artist_updates(album, artists.drop_last()) + seq![
            GraphUpdateView::MergeArtist { file_name: a.file_name@, name: a.name@ },
            GraphUpdateView::LinkCreated { album_file_name: album, artist_file_name: a.file_name@ },
        ]
    }
}

/// For each role of a credit, its artist is merged, then linked with the role.
pub open spec fn role_updates(album: Seq<char>, artist: ParsedArtistReference, roles: Seq<String>) -> Seq<GraphUpdateView>
    decreases roles.len(),
{
    if roles.len() == 0 {
        Seq::empty()
    } else {
        role_updates(album, artist, roles.drop_last()) + seq![
            GraphUpdateView::MergeArtist { file_name: artist.file_name@, name: artist.name@ },
            GraphUpdateView::LinkCredited {
                album_file_name: album,
                artist_file_name: artist.file_name@,
                role: roles.last()@,
            },
        ]
    }
}

/// The role updates of every credit, credit by credit.
pub open spec fn credit_updates(album: Seq<char>, credits: Seq<ParsedCredit>) -> Seq<GraphUpdateView>
    decreases credits.len(),
{
    if credits.len() == 0 {
        Seq::empty()
    } else {
        credit_updates(album, credits.drop_last()) + role_updates(album, credits.last().artist, credits.last().roles@)
    }
}

/// What a tag of the album is.
pub enum TagKind {
    PrimaryGenre,
    SecondaryGenre,
    Descriptor,
}

/// The node merge and album edge of one tag.
pub open spec fn tag_pair(album: Seq<char>, tag: Seq<char>, kind: TagKind) -> Seq<GraphUpdateView> {
    match kind {
        TagKind::PrimaryGenre => seq![
            GraphUpdateView::MergeGenre { name: tag },
            GraphUpdateView::LinkPrimaryGenre { album_file_name: album, genre: tag },
        ],
        TagKind::SecondaryGenre => seq![
            GraphUpdateView::MergeGenre { name: tag },
            GraphUpdateView::LinkSecondaryGenre { album_file_name: album, genre: tag },
        ],
        TagKind::Descriptor => seq![
            GraphUpdateView::MergeDescriptor { name: tag },
            GraphUpdateView::LinkDescriptor { album_file_name: album, descriptor: tag },
        ],
    }
}

/// Each tag is merged, then linked to the album.
pub open spec fn tag_updates(album: Seq<char>, tags: Seq<String>, kind: TagKind) -> Seq<GraphUpdateView>
    decreases tags.len(),
{
    if tags.len() == 0 {
        Seq::empty()
    } else {
        tag_updates(album, tags.drop_last(), kind) + tag_pair(album, tags.last()@, kind)
    }
}

/// All updates of an album at page `file_name`, released on `date`.
pub open spec fn spec_album_graph_updates(file_name: Seq<char>, album: AlbumMessage, date: Option<CalendarDate>) -> Seq<GraphUpdateView> {
    seq![GraphUpdateView::MergeAlbum {
        file_name,
        name: album.name@,
        rating_count: album.rating_count as i64,
        release_date: date,
    }] + artist_updates(file_name, album.artists@) + credit_updates(file_name, album.credits@)
        + tag_updates(file_name, album.primary_genres@, TagKind::PrimaryGenre)
        + tag_updates(file_name, album.secondary_genres@, TagKind::SecondaryGenre)
        + tag_updates(file_name, album.descriptors@, TagKind::Descriptor)
}

/// The release date of the album cannot be read.
pub struct InvalidReleaseDate;

fn push_tag_updates(out: &mut Vec<GraphUpdate>, album: &String, tags: &Vec<String>, kind: TagKind)
    ensures
        updates_view(final(out)@) == updates_view(old(out)@) + tag_updates(album@, tags@, kind),
{
    for i in 0..tags.len()
        invariant
            updates_view(out@) == updates_view(old(out)@) + tag_updates(album@, tags@.take(i as int), kind),
    {
        let t = &tags[i];
        let ghost before = out@;
        match kind {
            TagKind::PrimaryGenre => {
                out.push(GraphUpdate::MergeGenre { name: t.clone() });
                out.push(GraphUpdate::LinkPrimaryGenre { album_file_name: album.clone(), genre: t.clone() });
            },
            TagKind::SecondaryGenre => {
                out.push(GraphUpdate::MergeGenre { name: t.clone() });
                out.push(GraphUpdate::LinkSecondaryGenre { album_file_name: album.clone(), genre: t.clone() });
            },
            TagKind::Descriptor => {
                out.push(GraphUpdate::MergeDescriptor { name: t.clone() });
                out.push(GraphUpdate::LinkDescriptor { album_file_name: album.clone(), descriptor: t.clone() });
            },
        }
        proof {
            assert(tags@.take(i + 1).drop_last() =~= tags@.take(i as int));
            assert(updates_view(out@) =~= updates_view(before) + tag_pair(album@, tags@[i as int]@, kind));
        }
    }
    proof {
        assert(tags@.take(tags@.len() as int) =~= tags@);
    }
}

fn push_artist_updates(out: &mut Vec<GraphUpdate>, album: &String, artists: &Vec<ParsedArtistReference>)
    ensures
        updates_view(final(out)@) == updates_view(old(out)@) + artist_updates(album@, artists@),
{
    for i in 0..artists.len()
        invariant
            updates_view(out@) == updates_view(old(out)@) + artist_updates(album@, artists@.take(i as int)),
    {
        let a = &artists[i];
        let ghost before = out@;
        out.push(GraphUpdate::MergeArtist { file_name: a.file_name.0.clone(), name: a.name.clone() });
        out.push(GraphUpdate::LinkCreated { album_file_name: album.clone(), artist_file_name: a.file_name.0.clone() });
        proof {
            assert(artists@.take(i + 1).drop_last() =~= artists@.take(i as int));
            assert(updates_view(out@) =~= updates_view(before) + seq![
                GraphUpdateView::MergeArtist { file_name: a.file_name@, name: a.name@ },
                GraphUpdateView::LinkCreated { album_file_name: album@, artist_file_name: a.file_name@ },
            ]);
        }
    }
    proof {
        assert(artists@.take(artists@.len() as int) =~= artists@);
    }
}

fn push_credit_updates(out: &mut Vec<GraphUpdate>, album: &String, credits: &Vec<ParsedCredit>)
    ensures
        updates_view(final(out)@) == updates_view(old(out)@) + credit_updates(album@, credits@),
{
    for i in 0..credits.len()
        invariant
            updates_view(out@) == updates_view(old(out)@) + credit_updates(album@, credits@.take(i as int)),
    {
        let c = &credits[i];
        let ghost start = updates_view(out@);
        for j in 0..c.roles.len()
            invariant
                updates_view(out@) == start + role_updates(album@, c.artist, c.roles@.take(j as int)),
        {
            let ghost before = out@;
            out.push(GraphUpdate::MergeArtist { file_name: c.artist.file_name.0.clone(), name: c.artist.name.clone() });
            out.push(GraphUpdate::LinkCredited {
                album_file_name: album.clone(),
                artist_file_name: c.artist.file_name.0.clone(),
                role: c.roles[j].clone(),
            });
            proof {
                assert(c.roles@.take(j + 1).drop_last() =~= c.roles@.take(j as int));
                assert(updates_view(out@) =~= updates_view(before) + seq![
                    GraphUpdateView::MergeArtist { file_name: c.artist.file_name@, name: c.artist.name@ },
                    GraphUpdateView::LinkCredited {
                        album_file_name: album@,
                        artist_file_name: c.artist.file_name@,
                        role: c.roles@[j as int]@,
                    },
                ]);
            }
        }
        proof {
            assert(c.roles@.take(c.roles@.len() as int) =~= c.roles@);
            assert(credits@.take(i + 1).drop_last() =~= credits@.take(i as int));
        }
    }
    proof {
        assert(credits@.take(credits@.len() as int) =~= credits@);
    }
}

/// The graph updates of an album at page `file_name`, released on
/// `release_date`.
pub fn graph_updates_with_date(file_name: &String, album: &AlbumMessage, release_date: Option<CalendarDate>) -> (res: Vec<GraphUpdate>)
    ensures
        updates_view(res@) == spec_album_graph_updates(file_name@, *album, release_date),
{
    let mut out: Vec<GraphUpdate> = Vec::new();
    out.push(GraphUpdate::MergeAlbum {
        file_name: file_name.clone(),
        name: album.name.clone(),
        rating_count: album.rating_count as i64,
        release_date,
    });
    proof {
        assert(updates_view(out@) =~= seq![GraphUpdateView::MergeAlbum {
            file_name: file_name@,
            name: album.name@,
            rating_count: album.rating_count as i64,
            release_date,
        }]);
    }
    push_artist_updates(&mut out, file_name, &album.artists);
    push_credit_updates(&mut out, file_name, &album.credits);
    push_tag_updates(&mut out, file_name, &album.primary_genres, TagKind::PrimaryGenre);
    push_tag_updates(&mut out, file_name, &album.secondary_genres, TagKind::SecondaryGenre);
    push_tag_updates(&mut out, file_name, &album.descriptors, TagKind::Descriptor);
    out
}

/// The graph updates of a parsed album. A release date that chrono refuses
/// makes the whole album fail before anything is written; a missing one
/// leaves the date unset.
pub fn album_graph_updates(file_name: &String, album: &AlbumMessage) -> (res: Result<Vec<GraphUpdate>, InvalidReleaseDate>)
    ensures
        match album.release_date {
            Some(t) => match spec_parse_release_date(t@) {
                Some(d) => res matches Ok(u) && updates_view(u@) == spec_album_graph_updates(file_name@, *album, Some(d)),
                None => res is Err,
            },
            None => res matches Ok(u) && updates_view(u@) == spec_album_graph_updates(file_name@, *album, None),
        },
{
    let date = match &album.release_date {
        Some(t) => match release_date_from_text(t.as_str()) {
            Some(d) => Some(d),
            None => {
                return Err(InvalidReleaseDate);
            },
        },
        None => None,
    };
    Ok(graph_updates_with_date(file_name, album, date))
}

} // verus!
