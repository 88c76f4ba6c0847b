//! The artist read model and the overview of an artist's albums.
use crate::albums::album_collection_summary::{
    Feature, feature_entries, find_album, find_album_index, lemma_occurs_concat,
    lemma_occurs_weighted, lemma_weight_concat, lemma_weight_weighted, occurrences,
    push_feature_entries, texts, weighted,
};
use crate::albums::album_read_model::{AlbumReadModel, spec_ascii, to_ascii};
use crate::file_name::FileName;
use crate::item_with_factor::{
    ItemWithFactor, entries_view, has_item, is_tally, item_weights_fit, occurs, tally, weight_of,
};
use vstd::prelude::*;

verus! {

/// A credit of an artist on an album that is not the artist's own.
pub struct ArtistReadModelCredit {
    pub album_file_name: FileName,
    pub roles: Vec<String>,
}

/// An artist: its own albums and its credits on others' albums.
pub struct ArtistReadModel {
    pub name: String,
    pub file_name: FileName,
    pub album_file_names: Vec<FileName>,
    pub credits: Vec<ArtistReadModelCredit>,
}

impl ArtistReadModel {
    /// The artist's name transliterated to ASCII.
    pub fn ascii_name(&self) -> (res: String)
        ensures
            res@ == spec_ascii(self.name@),
    {
        to_ascii(self.name.as_str())
    }
}

/// What a set of albums amounts to. The average rating, a floating-point
/// figure weighted by the rating counts, is derived beside this summary by
/// the application.
pub struct ArtistAlbumSummary {
    pub album_count: u32,
    pub total_rating_count: u32,
    pub min_year: u32,
    pub max_year: u32,
    pub primary_genres: Vec<ItemWithFactor>,
    pub secondary_genres: Vec<ItemWithFactor>,
    pub descriptors: Vec<ItemWithFactor>,
}

/// The entries of a feature over albums, each album counting once.
pub open spec fn albums_entries(albums: Seq<AlbumReadModel>, feature: Feature) -> Seq<(Seq<char>, u32)>
    decreases albums.len(),
{
    if albums.len() == 0 {
        Seq::empty()
    } else {
        albums_entries(albums.drop_last(), feature) + feature_entries(albums.last(), 1, feature)
    }
}

/// The summed rating counts of albums.
pub open spec fn total_rating_count(albums: Seq<AlbumReadModel>) -> nat
    decreases albums.len(),
{
    if albums.len() == 0 {
        0
    } else {
        total_rating_count(albums.drop_last()) + albums.last().rating_count as nat
    }
}

/// The release years of the albums that have a release date, in order.
pub open spec fn release_years(albums: Seq<AlbumReadModel>) -> Seq<i32>
    decreases albums.len(),
{
    if albums.len() == 0 {
        Seq::empty()
    } else {
        match albums.last().release_date {
            Some(d) => release_years(albums.drop_last()).push(d.year),
            None => release_years(albums.drop_last()),
        }
    }
}

/// The least of a non-empty sequence of years.
pub open spec fn min_of(s: Seq<i32>) -> i32
    decreases s.len(),
{
    if s.len() <= 1 {
        s[0]
    } else if s.last() < min_of(s.drop_last()) {
        s.last()
    } else {
        min_of(s.drop_last())
    }
}

/// The greatest of a non-empty sequence of years.
pub open spec fn max_of(s: Seq<i32>) -> i32
    decreases s.len(),
{
    if s.len() <= 1 {
        s[0]
    } else if s.last() > max_of(s.drop_last()) {
        s.last()
    } else {
        max_of(s.drop_last())
    }
}

/// The earliest release year as a `u32` (converted as Rust's `as` does),
/// or 0 when no album has a date.
pub open spec fn spec_min_year(albums: Seq<AlbumReadModel>) -> u32 {
    if release_years(albums).len() == 0 {
        0
    } else {
        min_of(release_years(albums)) as u32
    }
}

/// The latest release year as a `u32`, or 0 when no album has a date.
pub open spec fn spec_max_year(albums: Seq<AlbumReadModel>) -> u32 {
    if release_years(albums).len() == 0 {
        0
    } else {
        max_of(release_years(albums)) as u32
    }
}

/// The summary of `albums` can be computed: the rating counts sum to a
/// `u32`, and so does each feature's number of entries.
pub open spec fn summary_fits(albums: Seq<AlbumReadModel>) -> bool {
    &&& total_rating_count(albums) <= u32::MAX
    &&& item_weights_fit(albums_entries(albums, Feature::PrimaryGenres))
    &&& item_weights_fit(albums_entries(albums, Feature::SecondaryGenres))
    &&& item_weights_fit(albums_entries(albums, Feature::Descriptors))
}

/// The view of a list of album references as the albums.
pub open spec fn deref_albums(albums: Seq<&AlbumReadModel>) -> Seq<AlbumReadModel> {
    albums.map_values(|a: &AlbumReadModel| *a)
}


/// How many times the albums' `field` lists `g`, album by album.
pub open spec fn albums_field_count(albums: Seq<AlbumReadModel>, field: spec_fn(AlbumReadModel) -> Seq<Seq<char>>, g: Seq<char>) -> nat
    decreases albums.len(),
{
    if albums.len() == 0 {
        0
    } else {
        albums_field_count(albums.drop_last(), field, g) + occurrences(field(albums.last()), g)
    }
}

/// Some album lists `g` in its `field`.
pub open spec fn albums_list(albums: Seq<AlbumReadModel>, field: spec_fn(AlbumReadModel) -> Seq<Seq<char>>, g: Seq<char>) -> bool {
    exists|k: int| 0 <= k < albums.len() && #[trigger] field(albums[k]).contains(g)
}

/// `res` counts the `field` of the albums: each item once, each listed by
/// some album, with how many times the albums list it, and every item that
/// an album lists is there.
pub open spec fn is_albums_field_count(albums: Seq<AlbumReadModel>, field: spec_fn(AlbumReadModel) -> Seq<Seq<char>>, res: Seq<ItemWithFactor>) -> bool {
    &&& forall|i: int, j: int| 0 <= i < j < res.len() ==> res[i].item@ != res[j].item@
    &&& forall|i: int| 0 <= i < res.len() ==> albums_list(albums, field, #[trigger] res[i].item@)
    &&& forall|i: int| 0 <= i < res.len() ==> #[trigger] res[i].factor == albums_field_count(albums, field, res[i].item@)
    &&& forall|k: int, g: Seq<char>| 0 <= k < albums.len() && #[trigger] field(albums[k]).contains(g) ==> has_item(res, g)
}

proof fn lemma_albums_feature_by_field(albums: Seq<AlbumReadModel>, feature: Feature, field: spec_fn(AlbumReadModel) -> Seq<Seq<char>>, g: Seq<char>)
    requires
        forall|a: AlbumReadModel, w: u32| #[trigger] feature_entries(a, w, feature) == weighted(field(a), w),
    ensures
        weight_of(albums_entries(albums, feature), g) == albums_field_count(albums, field, g),
        occurs(albums_entries(albums, feature), g) == albums_list(albums, field, g),
    decreases albums.len(),
{
    if albums.len() == 0 {
        assert(!occurs(albums_entries(albums, feature), g));
    } else {
        let pre = albums.drop_last();
        let a = albums.last();
        lemma_albums_feature_by_field(pre, feature, field, g);
        assert(feature_entries(a, 1, feature) == weighted(field(a), 1));
        lemma_weight_concat(albums_entries(pre, feature), weighted(field(a), 1), g);
        lemma_weight_weighted(field(a), 1, g);
        lemma_occurs_concat(albums_entries(pre, feature), weighted(field(a), 1), g);
        lemma_occurs_weighted(field(a), 1, g);
        if albums_list(albums, field, g) {
            let k = choose|k: int| 0 <= k < albums.len() && #[trigger] field(albums[k]).contains(g);
            if k < albums.len() - 1 {
                assert(field(pre[k]).contains(g));
            }
        }
        if albums_list(pre, field, g) {
            let k = choose|k: int| 0 <= k < pre.len() && #[trigger] field(pre[k]).contains(g);
            assert(albums[k] == pre[k]);
        }
        if field(a).contains(g) {
            assert(albums[albums.len() - 1] == a);
        }
    }
}

/// A tally of a feature's entries over albums counts the album field that
/// the feature reads.
pub proof fn lemma_albums_tally_is_field_count(albums: Seq<AlbumReadModel>, feature: Feature, field: spec_fn(AlbumReadModel) -> Seq<Seq<char>>, res: Seq<ItemWithFactor>)
    requires
        forall|a: AlbumReadModel, w: u32| #[trigger] feature_entries(a, w, feature) == weighted(field(a), w),
        is_tally(albums_entries(albums, feature), res),
    ensures
        is_albums_field_count(albums, field, res),
{
    let e = albums_entries(albums, feature);
    assert forall|i: int| 0 <= i < res.len() implies albums_list(albums, field, #[trigger] res[i].item@)
        && res[i].factor == albums_field_count(albums, field, res[i].item@) by {
        lemma_albums_feature_by_field(albums, feature, field, res[i].item@);
        assert(occurs(e, res[i].item@));
    }
    assert forall|k: int, g: Seq<char>| 0 <= k < albums.len() && #[trigger] field(albums[k]).contains(g) implies has_item(res, g) by {
        lemma_albums_feature_by_field(albums, feature, field, g);
        assert(albums_list(albums, field, g));
        let m = choose|m: int| 0 <= m < e.len() && #[trigger] e[m].0 == g;
        assert(has_item(res, e[m].0));
    }
}

fn albums_entries_of(albums: &Vec<&AlbumReadModel>, feature: Feature) -> (res: Vec<(String, u32)>)
    ensures
        entries_view(res@) == albums_entries(deref_albums(albums@), feature),
{
    let ghost all = deref_albums(albums@);
    let mut res: Vec<(String, u32)> = Vec::new();
    for i in 0..albums.len()
        invariant
            all == deref_albums(albums@),
            entries_view(res@) == albums_entries(all.take(i as int), feature),
    {
        proof {
            assert(all.take(i + 1).drop_last() =~= all.take(i as int));
            assert(all.take(i + 1).last() == *albums@[i as int]);
        }
        push_feature_entries(&mut res, albums[i], 1, feature);
    }
    proof {
        assert(all.take(albums@.len() as int) =~= all);
    }
    res
}

impl ArtistAlbumSummary {
    /// Summarises albums: how many, their summed rating counts, their
    /// earliest and latest release years, and how many of them have each
    /// primary genre, secondary genre and descriptor.
    pub fn from_albums(albums: Vec<&AlbumReadModel>) -> (res: Self)
        requires
            summary_fits(deref_albums(albums@)),
        ensures
            res.album_count == albums@.len() as u32,
            res.total_rating_count == total_rating_count(deref_albums(albums@)),
            res.min_year == spec_min_year(deref_albums(albums@)),
            res.max_year == spec_max_year(deref_albums(albums@)),
            is_tally(albums_entries(deref_albums(albums@), Feature::PrimaryGenres), res.primary_genres@),
            is_tally(albums_entries(deref_albums(albums@), Feature::SecondaryGenres), res.secondary_genres@),
            is_tally(albums_entries(deref_albums(albums@), Feature::Descriptors), res.descriptors@),
            is_albums_field_count(deref_albums(albums@), |a: AlbumReadModel| texts(a.primary_genres@), res.primary_genres@),
            is_albums_field_count(deref_albums(albums@), |a: AlbumReadModel| texts(a.secondary_genres@), res.secondary_genres@),
            is_albums_field_count(deref_albums(albums@), |a: AlbumReadModel| texts(a.descriptors@), res.descriptors@),
    {
        let ghost all = deref_albums(albums@);
        let album_count = albums.len() as u32;
        let mut total: u32 = 0;
        let mut years_seen = false;
        let mut min_year: i32 = 0;
        let mut max_year: i32 = 0;
        for i in 0..albums.len()
            invariant
                all == deref_albums(albums@),
                total_rating_count(all) <= u32::MAX,
                total == total_rating_count(all.take(i as int)),
                years_seen == (release_years(all.take(i as int)).len() > 0),
                years_seen ==> min_year == min_of(release_years(all.take(i as int))),
                years_seen ==> max_year == max_of(release_years(all.take(i as int))),
        {
            proof {
                assert(all.take(i + 1).drop_last() =~= all.take(i as int));
                assert(all.take(i + 1).last() == *albums@[i as int]);
                lemma_total_rating_prefix(all, i + 1);
            }
            total = total + albums[i].rating_count;
            match albums[i].release_date {
                Some(d) => {
                    proof {
                        let ys = release_years(all.take(i + 1));
                        assert(ys.drop_last() == release_years(all.take(i as int)));
                        assert(ys.last() == d.year);
                    }
                    if !years_seen || d.year < min_year {
                        min_year = d.year;
                    }
                    if !years_seen || d.year > max_year {
                        max_year = d.year;
                    }
                    years_seen = true;
                },
                None => {},
            }
        }
        proof {
            assert(all.take(albums@.len() as int) =~= all);
        }
        let primary = albums_entries_of(&albums, Feature::PrimaryGenres);
        let secondary = albums_entries_of(&albums, Feature::SecondaryGenres);
        let descriptors = albums_entries_of(&albums, Feature::Descriptors);
        let primary_genres = tally(&primary);
        let secondary_genres = tally(&secondary);
        let descriptors = tally(&descriptors);
        proof {
            let f_primary = |a: AlbumReadModel| texts(a.primary_genres@);
            assert forall|a: AlbumReadModel, w: u32| #[trigger] feature_entries(a, w, Feature::PrimaryGenres) == weighted(f_primary(a), w) by {}
            lemma_albums_tally_is_field_count(all, Feature::PrimaryGenres, f_primary, primary_genres@);
            let f_secondary = |a: AlbumReadModel| texts(a.secondary_genres@);
            assert forall|a: AlbumReadModel, w: u32| #[trigger] feature_entries(a, w, Feature::SecondaryGenres) == weighted(f_secondary(a), w) by {}
            lemma_albums_tally_is_field_count(all, Feature::SecondaryGenres, f_secondary, secondary_genres@);
            let f_descriptors = |a: AlbumReadModel| texts(a.descriptors@);
            assert forall|a: AlbumReadModel, w: u32| #[trigger] feature_entries(a, w, Feature::Descriptors) == weighted(f_descriptors(a), w) by {}
            lemma_albums_tally_is_field_count(all, Feature::Descriptors, f_descriptors, descriptors@);
        }
        ArtistAlbumSummary {
            album_count,
            total_rating_count: total,
            min_year: if years_seen {
                min_year as u32
            } else {
                0
            },
            max_year: if years_seen {
                max_year as u32
            } else {
                0
            },
            primary_genres,
            secondary_genres,
            descriptors,
        }
    }
}

proof fn lemma_total_rating_prefix(albums: Seq<AlbumReadModel>, k: int)
    requires
        0 <= k <= albums.len(),
    ensures
        total_rating_count(albums.take(k)) <= total_rating_count(albums),
    decreases albums.len() - k,
{
    if k < albums.len() {
        lemma_total_rating_prefix(albums, k + 1);
        assert(albums.take(k + 1).drop_last() =~= albums.take(k));
    } else {
        assert(albums.take(k) =~= albums);
    }
}

/// An artist with the summaries of its own albums and of the albums it is
/// credited on, and how often it holds each credit role.
pub struct ArtistOverview {
    pub name: String,
    pub file_name: FileName,
    pub credit_roles: Vec<ItemWithFactor>,
    pub album_summary: ArtistAlbumSummary,
    pub credited_album_summary: ArtistAlbumSummary,
}

impl ArtistOverview {
    /// The artist's name transliterated to ASCII.
    pub fn ascii_name(&self) -> (res: String)
        ensures
            res@ == spec_ascii(self.name@),
    {
        to_ascii(self.name.as_str())
    }
}

/// The albums of `albums` with the given page names, in the order of the
/// names; a name with no album adds nothing.
pub open spec fn found_albums(albums: Seq<AlbumReadModel>, names: Seq<Seq<char>>) -> Seq<AlbumReadModel>
    decreases names.len(),
{
    if names.len() == 0 {
        Seq::empty()
    } else {
        match find_album(albums, names.last()) {
            Some(a) => found_albums(albums, names.drop_last()).push(a),
            None => found_albums(albums, names.drop_last()),
        }
    }
}

/// One entry of weight 1 per credit role, credit by credit.
pub open spec fn role_entries(credits: Seq<ArtistReadModelCredit>) -> Seq<(Seq<char>, u32)>
    decreases credits.len(),
{
    if credits.len() == 0 {
        Seq::empty()
    } else {
        role_entries(credits.drop_last()) + weighted(texts(credits.last().roles@), 1)
    }
}

/// The page names of an artist's own albums.
pub open spec fn own_album_names(artist: ArtistReadModel) -> Seq<Seq<char>> {
    artist.album_file_names@.map_values(|f: FileName| f@)
}

/// The page names of the albums an artist is credited on, credit by credit.
pub open spec fn credited_album_names(artist: ArtistReadModel) -> Seq<Seq<char>> {
    artist.credits@.map_values(|c: ArtistReadModelCredit| c.album_file_name@)
}

fn pick_albums<'a>(albums: &'a Vec<AlbumReadModel>, names: &Vec<FileName>) -> (res: Vec<&'a AlbumReadModel>)
    ensures
        deref_albums(res@) == found_albums(albums@, names@.map_values(|f: FileName| f@)),
{
    let ghost views = names@.map_values(|f: FileName| f@);
    let mut res: Vec<&AlbumReadModel> = Vec::new();
    for i in 0..names.len()
        invariant
            views == names@.map_values(|f: FileName| f@),
            deref_albums(res@) == found_albums(albums@, views.take(i as int)),
    {
        proof {
            assert(views.take(i + 1).drop_last() =~= views.take(i as int));
            assert(views.take(i + 1).last() == names@[i as int]@);
        }
        match find_album_index(albums, &names[i]) {
            Some(k) => {
                let ghost before = res@;
                res.push(&albums[k]);
                proof {
                    assert(deref_albums(res@) =~= deref_albums(before).push(albums@[k as int]));
                }
            },
            None => {},
        }
    }
    proof {
        assert(views.take(names@.len() as int) =~= views);
    }
    res
}

fn role_entries_of(credits: &Vec<ArtistReadModelCredit>) -> (res: Vec<(String, u32)>)
    ensures
        entries_view(res@) == role_entries(credits@),
{
    let mut res: Vec<(String, u32)> = Vec::new();
    for i in 0..credits.len()
        invariant
            entries_view(res@) == role_entries(credits@.take(i as int)),
    {
        proof {
            assert(credits@.take(i + 1).drop_last() =~= credits@.take(i as int));
        }
        let roles = &credits[i].roles;
        let ghost start = res@;
        for j in 0..roles.len()
            invariant
                entries_view(res@) == entries_view(start) + weighted(texts(roles@.take(j as int)), 1),
        {
            let ghost before = res@;
            let e = (roles[j].clone(), 1u32);
            res.push(e);
            proof {
                assert(res@ =~= before.push(e));
                assert(entries_view(res@) =~= entries_view(before).push((roles@[j as int]@, 1u32)));
                assert(weighted(texts(roles@.take(j + 1)), 1) =~= weighted(texts(roles@.take(j as int)), 1).push(
                    (roles@[j as int]@, 1u32),
                ));
            }
        }
        proof {
            assert(roles@.take(roles@.len() as int) =~= roles@);
        }
    }
    proof {
        assert(credits@.take(credits@.len() as int) =~= credits@);
    }
    res
}

/// The overview can be computed: both summaries fit, and the artist holds
/// at most `u32::MAX` credit roles.
pub open spec fn overview_fits(artist: ArtistReadModel, albums: Seq<AlbumReadModel>) -> bool {
    &&& summary_fits(found_albums(albums, own_album_names(artist)))
    &&& summary_fits(found_albums(albums, credited_album_names(artist)))
    &&& item_weights_fit(role_entries(artist.credits@))
}

impl ArtistOverview {
    /// The overview of `artist` over the known `albums`: how often it holds
    /// each credit role, the summary of its own albums and that of the
    /// albums it is credited on. Albums that are not known are left out.
    pub fn new(artist: ArtistReadModel, albums: &Vec<AlbumReadModel>) -> (res: Self)
        requires
            overview_fits(artist, albums@),
        ensures
            res.name@ == artist.name@,
            res.file_name@ == artist.file_name@,
            is_tally(role_entries(artist.credits@), res.credit_roles@),
            res.album_summary.album_count == found_albums(albums@, own_album_names(artist)).len() as u32,
            res.album_summary.total_rating_count == total_rating_count(found_albums(albums@, own_album_names(artist))),
            res.album_summary.min_year == spec_min_year(found_albums(albums@, own_album_names(artist))),
            res.album_summary.max_year == spec_max_year(found_albums(albums@, own_album_names(artist))),
            is_tally(albums_entries(found_albums(albums@, own_album_names(artist)), Feature::PrimaryGenres), res.album_summary.primary_genres@),
            is_tally(albums_entries(found_albums(albums@, own_album_names(artist)), Feature::SecondaryGenres), res.album_summary.secondary_genres@),
            is_tally(albums_entries(found_albums(albums@, own_album_names(artist)), Feature::Descriptors), res.album_summary.descriptors@),
            res.credited_album_summary.album_count == found_albums(albums@, credited_album_names(artist)).len() as u32,
            res.credited_album_summary.total_rating_count == total_rating_count(found_albums(albums@, credited_album_names(artist))),
            res.credited_album_summary.min_year == spec_min_year(found_albums(albums@, credited_album_names(artist))),
            res.credited_album_summary.max_year == spec_max_year(found_albums(albums@, credited_album_names(artist))),
            is_tally(albums_entries(found_albums(albums@, credited_album_names(artist)), Feature::PrimaryGenres), res.credited_album_summary.primary_genres@),
            is_tally(albums_entries(found_albums(albums@, credited_album_names(artist)), Feature::SecondaryGenres), res.credited_album_summary.secondary_genres@),
            is_tally(albums_entries(found_albums(albums@, credited_album_names(artist)), Feature::Descriptors), res.credited_album_summary.descriptors@),
    {
        let roles = role_entries_of(&artist.credits);
        let credit_roles = tally(&roles);
        let own = pick_albums(albums, &artist.album_file_names);
        let mut credited_names: Vec<FileName> = Vec::new();
        for i in 0..artist.credits.len()
            invariant
                credited_names@.map_values(|f: FileName| f@) == artist.credits@.take(i as int).map_values(
                    |c: ArtistReadModelCredit| c.album_file_name@,
                ),
        {
            let ghost before = credited_names@;
            let f = artist.credits[i].album_file_name.clone();
            credited_names.push(f);
            proof {
                assert(credited_names@ =~= before.push(f));
                assert(artist.credits@.take(i + 1) =~= artist.credits@.take(i as int).push(artist.credits@[i as int]));
                assert(credited_names@.map_values(|f: FileName| f@) =~= before.map_values(|f: FileName| f@).push(f@));
                assert(artist.credits@.take(i + 1).map_values(|c: ArtistReadModelCredit| c.album_file_name@)
                    =~= artist.credits@.take(i as int).map_values(|c: ArtistReadModelCredit| c.album_file_name@).push(
                    artist.credits@[i as int].album_file_name@,
                ));
            }
        }
        proof {
            assert(artist.credits@.take(artist.credits@.len() as int) =~= artist.credits@);
        }
        let credited = pick_albums(albums, &credited_names);
        let album_summary = ArtistAlbumSummary::from_albums(own);
        let credited_album_summary = ArtistAlbumSummary::from_albums(credited);
        ArtistOverview {
            name: artist.name,
            file_name: artist.file_name,
            credit_roles,
            album_summary,
            credited_album_summary,
        }
    }
}

} // verus!
