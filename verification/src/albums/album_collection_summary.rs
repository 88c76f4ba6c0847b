//! What a collection of albums, each weighted by a factor, is made of.
use crate::albums::album_read_model::{AlbumReadModel, spec_credit_tags};
use crate::file_name::FileName;
use crate::item_with_factor::{
    ItemWithFactor, entries_view, has_item, is_tally, occurs, ranked_tally, sorted_desc,
    item_weights_fit, weight_of,
};
use crate::text::{decimal, push_decimal};
use vstd::prelude::*;

verus! {

/// The weighted frequencies of the features of a collection, each list
/// ranked by factor, largest first. The average rating and the median year
/// are floating-point figures that the application derives beside these.
pub struct AlbumCollectionSummary {
    pub artists: Vec<ItemWithFactor>,
    pub primary_genres: Vec<ItemWithFactor>,
    pub secondary_genres: Vec<ItemWithFactor>,
    pub descriptors: Vec<ItemWithFactor>,
    pub years: Vec<ItemWithFactor>,
    pub decades: Vec<ItemWithFactor>,
    pub credit_tags: Vec<ItemWithFactor>,
}

/// The features that a summary counts.
#[derive(Clone, Copy, PartialEq, Eq, Structural)]
pub enum Feature {
    Artists,
    PrimaryGenres,
    SecondaryGenres,
    Descriptors,
    Years,
    Decades,
    CreditTags,
}

/// The last album of `albums` with page name `f`.
pub open spec fn find_album(albums: Seq<AlbumReadModel>, f: Seq<char>) -> Option<AlbumReadModel>
    decreases albums.len(),
{
    if albums.len() == 0 {
        None
    } else if albums.last().file_name@ == f {
        Some(albums.last())
    } else {
        find_album(albums.drop_last(), f)
    }
}

pub open spec fn weighted(items: Seq<Seq<char>>, w: u32) -> Seq<(Seq<char>, u32)> {
    items.map_values(|x: Seq<char>| (x, w))
}

pub open spec fn texts(v: Seq<String>) -> Seq<Seq<char>> {
    v.map_values(|s: String| s@)
}

/// The release year of an album as the summary counts it: the calendar
/// year converted to `u32` as Rust's `as` does.
pub open spec fn release_year(a: AlbumReadModel) -> Option<u32> {
    match a.release_date {
        Some(d) => Some(d.year as u32),
        None => None,
    }
}

/// The entries that one album with weight `w` adds for a feature.
pub open spec fn feature_entries(a: AlbumReadModel, w: u32, feature: Feature) -> Seq<(Seq<char>, u32)> {
    match feature {
        Feature::Artists => weighted(a.artists@.map_values(|x: crate::albums::album_read_model::AlbumReadModelArtist| x.name@), w),
        Feature::PrimaryGenres => weighted(texts(a.primary_genres@), w),
        Feature::SecondaryGenres => weighted(texts(a.secondary_genres@), w),
        Feature::Descriptors => weighted(texts(a.descriptors@), w),
        Feature::Years => match release_year(a) {
            Some(y) => seq![(decimal(y as nat), w)],
            None => Seq::empty(),
        },
        Feature::Decades => match release_year(a) {
            Some(y) => seq![(decimal((y - y % 10) as nat), w)],
            None => Seq::empty(),
        },
        Feature::CreditTags => weighted(spec_credit_tags(a.credits@), w),
    }
}

/// All entries of a feature, over the weighted page names in order; a page
/// name with no album adds nothing.
pub open spec fn summary_entries(
    albums: Seq<AlbumReadModel>,
    factors: Seq<(FileName, u32)>,
    feature: Feature,
) -> Seq<(Seq<char>, u32)>
    decreases factors.len(),
{
    if factors.len() == 0 {
        Seq::empty()
    } else {
        summary_entries(albums, factors.drop_last(), feature) + match find_album(
            albums,
            factors.last().0@,
        ) {
            Some(a) => feature_entries(a, factors.last().1, feature),
            None => Seq::empty(),
        }
    }
}

/// For every feature, the summed weight of each single item fits in a
/// `u32`.
pub open spec fn summary_fits(albums: Seq<AlbumReadModel>, factors: Seq<(FileName, u32)>) -> bool {
    &&& item_weights_fit(summary_entries(albums, factors, Feature::Artists))
    &&& item_weights_fit(summary_entries(albums, factors, Feature::PrimaryGenres))
    &&& item_weights_fit(summary_entries(albums, factors, Feature::SecondaryGenres))
    &&& item_weights_fit(summary_entries(albums, factors, Feature::Descriptors))
    &&& item_weights_fit(summary_entries(albums, factors, Feature::Years))
    &&& item_weights_fit(summary_entries(albums, factors, Feature::Decades))
    &&& item_weights_fit(summary_entries(albums, factors, Feature::CreditTags))
}

/// No page name is weighted twice.
pub open spec fn distinct_names(factors: Seq<(FileName, u32)>) -> bool {
    forall|i: int, j: int| 0 <= i < j < factors.len() ==> factors[i].0@ != factors[j].0@
}


/// How often `g` occurs in `items`.
pub open spec fn occurrences(items: Seq<Seq<char>>, g: Seq<char>) -> nat
    decreases items.len(),
{
    if items.len() == 0 {
        0
    } else {
        occurrences(items.drop_last(), g) + if items.last() == g { 1nat } else { 0nat }
    }
}

/// The weight of `g` over the weighted albums: for each weighted page name
/// with an album, its factor times how often the album's `field` lists `g`.
pub open spec fn field_weight(
    albums: Seq<AlbumReadModel>,
    factors: Seq<(FileName, u32)>,
    field: spec_fn(AlbumReadModel) -> Seq<Seq<char>>,
    g: Seq<char>,
) -> nat
    decreases factors.len(),
{
    if factors.len() == 0 {
        0
    } else {
        field_weight(albums, factors.drop_last(), field, g) + match find_album(albums, factors.last().0@) {
            Some(a) => factors.last().1 as nat * occurrences(field(a), g),
            None => 0,
        }
    }
}

/// Some weighted album lists `g` in its `field`.
pub open spec fn listed_in(
    albums: Seq<AlbumReadModel>,
    factors: Seq<(FileName, u32)>,
    field: spec_fn(AlbumReadModel) -> Seq<Seq<char>>,
    g: Seq<char>,
) -> bool
    decreases factors.len(),
{
    if factors.len() == 0 {
        false
    } else {
        listed_in(albums, factors.drop_last(), field, g) || match find_album(albums, factors.last().0@) {
            Some(a) => field(a).contains(g),
            None => false,
        }
    }
}

/// `res` tallies the `field` of the weighted albums: each item once, each
/// listed by some weighted album, with its weight over them, and every item
/// that a weighted album lists is there.
pub open spec fn is_field_tally(
    albums: Seq<AlbumReadModel>,
    factors: Seq<(FileName, u32)>,
    field: spec_fn(AlbumReadModel) -> Seq<Seq<char>>,
    res: Seq<ItemWithFactor>,
) -> bool {
    &&& forall|i: int, j: int| 0 <= i < j < res.len() ==> res[i].item@ != res[j].item@
    &&& forall|i: int| 0 <= i < res.len() ==> listed_in(albums, factors, field, #[trigger] res[i].item@)
    &&& forall|i: int| 0 <= i < res.len() ==> #[trigger] res[i].factor == field_weight(albums, factors, field, res[i].item@)
    &&& forall|g: Seq<char>| #[trigger] listed_in(albums, factors, field, g) ==> has_item(res, g)
}

/// A step of the weight and occurrence laws.
pub proof fn lemma_weight_concat(s1: Seq<(Seq<char>, u32)>, s2: Seq<(Seq<char>, u32)>, g: Seq<char>)
    ensures
        weight_of(s1 + s2, g) == weight_of(s1, g) + weight_of(s2, g),
    decreases s2.len(),
{
    if s2.len() == 0 {
        assert(s1 + s2 =~= s1);
    } else {
        assert((s1 + s2).drop_last() =~= s1 + s2.drop_last());
        assert((s1 + s2).last() == s2.last());
        lemma_weight_concat(s1, s2.drop_last(), g);
    }
}

/// A step of the weight and occurrence laws.
pub proof fn lemma_weight_weighted(items: Seq<Seq<char>>, w: u32, g: Seq<char>)
    ensures
        weight_of(weighted(items, w), g) == w as nat * occurrences(items, g),
    decreases items.len(),
{
    if items.len() > 0 {
        assert(weighted(items, w).drop_last() =~= weighted(items.drop_last(), w));
        assert(weighted(items, w).last() == (items.last(), w));
        lemma_weight_weighted(items.drop_last(), w, g);
        let n = occurrences(items.drop_last(), g);
        assert(weighted(items, w).len() == items.len());
        assert(weight_of(weighted(items, w), g) == weight_of(weighted(items.drop_last(), w), g) + if items.last() == g {
            w as nat
        } else {
            0nat
        });
        assert(occurrences(items, g) == n + if items.last() == g { 1nat } else { 0nat });
        assert(w as nat * (n + 1) == w as nat * n + w as nat) by (nonlinear_arith);
    } else {
        assert(weighted(items, w).len() == 0);
        assert(occurrences(items, g) == 0);
        assert(w as nat * 0 == 0) by (nonlinear_arith);
    }
}

/// A step of the weight and occurrence laws.
pub proof fn lemma_occurs_concat(s1: Seq<(Seq<char>, u32)>, s2: Seq<(Seq<char>, u32)>, g: Seq<char>)
    ensures
        occurs(s1 + s2, g) == (occurs(s1, g) || occurs(s2, g)),
{
    if occurs(s1 + s2, g) {
        let k = choose|k: int| 0 <= k < (s1 + s2).len() && #[trigger] (s1 + s2)[k].0 == g;
        if k < s1.len() {
            assert(s1[k] == (s1 + s2)[k]);
        } else {
            assert(s2[k - s1.len()] == (s1 + s2)[k]);
        }
    }
    if occurs(s1, g) {
        let k = choose|k: int| 0 <= k < s1.len() && #[trigger] s1[k].0 == g;
        assert((s1 + s2)[k] == s1[k]);
    }
    if occurs(s2, g) {
        let k = choose|k: int| 0 <= k < s2.len() && #[trigger] s2[k].0 == g;
        assert((s1 + s2)[s1.len() + k] == s2[k]);
    }
}

/// A step of the weight and occurrence laws.
pub proof fn lemma_occurs_weighted(items: Seq<Seq<char>>, w: u32, g: Seq<char>)
    ensures
        occurs(weighted(items, w), g) == items.contains(g),
{
    if occurs(weighted(items, w), g) {
        let k = choose|k: int| 0 <= k < weighted(items, w).len() && #[trigger] weighted(items, w)[k].0 == g;
        assert(items[k] == g);
    }
    if items.contains(g) {
        let k = choose|k: int| 0 <= k < items.len() && items[k] == g;
        assert(weighted(items, w)[k].0 == g);
    }
}

proof fn lemma_feature_by_field(
    albums: Seq<AlbumReadModel>,
    factors: Seq<(FileName, u32)>,
    feature: Feature,
    field: spec_fn(AlbumReadModel) -> Seq<Seq<char>>,
    g: Seq<char>,
)
    requires
        forall|a: AlbumReadModel, w: u32| #[trigger] feature_entries(a, w, feature) == weighted(field(a), w),
    ensures
        weight_of(summary_entries(albums, factors, feature), g) == field_weight(albums, factors, field, g),
        occurs(summary_entries(albums, factors, feature), g) == listed_in(albums, factors, field, g),
    decreases factors.len(),
{
    if factors.len() == 0 {
        assert(!occurs(summary_entries(albums, factors, feature), g));
    } else {
        lemma_feature_by_field(albums, factors.drop_last(), feature, field, g);
        let pre = summary_entries(albums, factors.drop_last(), feature);
        match find_album(albums, factors.last().0@) {
            Some(a) => {
                let w = factors.last().1;
                assert(feature_entries(a, w, feature) == weighted(field(a), w));
                lemma_weight_concat(pre, weighted(field(a), w), g);
                lemma_weight_weighted(field(a), w, g);
                lemma_occurs_concat(pre, weighted(field(a), w), g);
                lemma_occurs_weighted(field(a), w, g);
            },
            None => {
                assert(summary_entries(albums, factors, feature) =~= pre);
            },
        }
    }
}

/// A tally of a feature's entries is a tally of the album field that the
/// feature reads.
pub proof fn lemma_tally_is_field_tally(
    albums: Seq<AlbumReadModel>,
    factors: Seq<(FileName, u32)>,
    feature: Feature,
    field: spec_fn(AlbumReadModel) -> Seq<Seq<char>>,
    res: Seq<ItemWithFactor>,
)
    requires
        forall|a: AlbumReadModel, w: u32| #[trigger] feature_entries(a, w, feature) == weighted(field(a), w),
        is_tally(summary_entries(albums, factors, feature), res),
    ensures
        is_field_tally(albums, factors, field, res),
{
    let e = summary_entries(albums, factors, feature);
    assert forall|i: int| 0 <= i < res.len() implies listed_in(albums, factors, field, #[trigger] res[i].item@)
        && res[i].factor == field_weight(albums, factors, field, res[i].item@) by {
        lemma_feature_by_field(albums, factors, feature, field, res[i].item@);
        assert(occurs(e, res[i].item@));
    }
    assert forall|g: Seq<char>| #[trigger] listed_in(albums, factors, field, g) implies has_item(res, g) by {
        lemma_feature_by_field(albums, factors, feature, field, g);
        let k = choose|k: int| 0 <= k < e.len() && #[trigger] e[k].0 == g;
        assert(has_item(res, e[k].0));
    }
}

/// The index of the last album of `albums` with page name `f`.
pub(crate) fn find_album_index(albums: &Vec<AlbumReadModel>, f: &FileName) -> (res: Option<usize>)
    ensures
        match res {
            Some(i) => i < albums@.len() && find_album(albums@, f@) == Some(albums@[i as int]),
            None => find_album(albums@, f@) is None,
        },
{
    let mut k = albums.len();
    proof {
        assert(albums@.take(albums@.len() as int) =~= albums@);
    }
    while k > 0
        invariant
            k <= albums@.len(),
            find_album(albums@, f@) == find_album(albums@.take(k as int), f@),
        decreases k,
    {
        proof {
            assert(albums@.take(k as int).drop_last() =~= albums@.take(k - 1));
            assert(albums@.take(k as int).last() == albums@[k - 1]);
        }
        if albums[k - 1].file_name.same_as(f) {
            return Some(k - 1);
        }
        k = k - 1;
    }
    None
}

/// Appends `(item, w)` for every string of `items`.
fn push_weighted(out: &mut Vec<(String, u32)>, items: &Vec<String>, w: u32)
    ensures
        entries_view(final(out)@) == entries_view(old(out)@) + weighted(texts(items@), w),
{
    for i in 0..items.len()
        invariant
            entries_view(out@) == entries_view(old(out)@) + weighted(texts(items@.take(i as int)), w),
    {
        let ghost before = out@;
        let e = (items[i].clone(), w);
        out.push(e);
        proof {
            assert(out@ =~= before.push(e));
            assert(entries_view(out@) =~= entries_view(before).push((items@[i as int]@, w)));
            assert(weighted(texts(items@.take(i + 1)), w) =~= weighted(texts(items@.take(i as int)), w).push((items@[i as int]@, w)));
        }
    }
    proof {
        assert(items@.take(items@.len() as int) =~= items@);
    }
}

/// Appends the entries that album `a` with weight `w` adds for `feature`.
pub(crate) fn push_feature_entries(out: &mut Vec<(String, u32)>, a: &AlbumReadModel, w: u32, feature: Feature)
    ensures
        entries_view(final(out)@) == entries_view(old(out)@) + feature_entries(*a, w, feature),
{
    match feature {
        Feature::Artists => {
            let mut names: Vec<String> = Vec::new();
            for i in 0..a.artists.len()
                invariant
                    texts(names@) == a.artists@.take(i as int).map_values(|x: crate::albums::album_read_model::AlbumReadModelArtist| x.name@),
            {
                let ghost before = names@;
                let n = a.artists[i].name.clone();
                names.push(n);
                proof {
                    assert(names@ =~= before.push(n));
                    assert(texts(names@) =~= texts(before).push(n@));
                    assert(a.artists@.take(i + 1) =~= a.artists@.take(i as int).push(a.artists@[i as int]));
                    assert(a.artists@.take(i + 1).map_values(|x: crate::albums::album_read_model::AlbumReadModelArtist| x.name@) =~= a.artists@.take(i as int).map_values(|x: crate::albums::album_read_model::AlbumReadModelArtist| x.name@).push(a.artists@[i as int].name@));
                }
            }
            proof {
                assert(a.artists@.take(a.artists@.len() as int) =~= a.artists@);
            }
            push_weighted(out, &names, w);
        },
        Feature::PrimaryGenres => push_weighted(out, &a.primary_genres, w),
        Feature::SecondaryGenres => push_weighted(out, &a.secondary_genres, w),
        Feature::Descriptors => push_weighted(out, &a.descriptors, w),
        Feature::Years => {
            match a.release_date {
                Some(d) => {
                    let y = d.year as u32;
                    let mut t = String::new();
                    push_decimal(&mut t, y as u64);
                    let ghost before = out@;
                    out.push((t, w));
                    proof {
                        assert(entries_view(out@) =~= entries_view(before) + seq![(decimal(y as nat), w)]);
                    }
                },
                None => {
                    proof {
                        assert(entries_view(out@) =~= entries_view(old(out)@) + feature_entries(*a, w, feature));
                    }
                },
            }
        },
        Feature::Decades => {
            match a.release_date {
                Some(d) => {
                    let y = d.year as u32;
                    let decade = y - y % 10;
                    let mut t = String::new();
                    push_decimal(&mut t, decade as u64);
                    let ghost before = out@;
                    out.push((t, w));
                    proof {
                        assert(entries_view(out@) =~= entries_view(before) + seq![(decimal(decade as nat), w)]);
                    }
                },
                None => {
                    proof {
                        assert(entries_view(out@) =~= entries_view(old(out)@) + feature_entries(*a, w, feature));
                    }
                },
            }
        },
        Feature::CreditTags => {
            let tags = a.credit_tags();
            proof {
                assert(texts(tags@) =~= spec_credit_tags(a.credits@));
            }
            push_weighted(out, &tags, w);
        },
    }
}

/// All entries of `feature` over the weighted page names.
fn feature_entries_of(albums: &Vec<AlbumReadModel>, factors: &Vec<(FileName, u32)>, feature: Feature) -> (res: Vec<(String, u32)>)
    ensures
        entries_view(res@) == summary_entries(albums@, factors@, feature),
{
    let mut res: Vec<(String, u32)> = Vec::new();
    for i in 0..factors.len()
        invariant
            entries_view(res@) == summary_entries(albums@, factors@.take(i as int), feature),
    {
        proof {
            assert(factors@.take(i + 1).drop_last() =~= factors@.take(i as int));
            assert(factors@.take(i + 1).last() == factors@[i as int]);
        }
        match find_album_index(albums, &factors[i].0) {
            Some(k) => {
                push_feature_entries(&mut res, &albums[k], factors[i].1, feature);
            },
            None => {
                proof {
                    assert(entries_view(res@) =~= summary_entries(albums@, factors@.take(i + 1), feature));
                }
            },
        }
    }
    proof {
        assert(factors@.take(factors@.len() as int) =~= factors@);
    }
    res
}

impl AlbumCollectionSummary {
    /// Counts the features of the albums that `factors` names, each album
    /// weighted by its factor, and ranks every list by factor.
    pub fn new(albums: Vec<AlbumReadModel>, factors: Vec<(FileName, u32)>) -> (res: Self)
        requires
            distinct_names(factors@),
            summary_fits(albums@, factors@),
        ensures
            is_tally(summary_entries(albums@, factors@, Feature::Artists), res.artists@),
            is_tally(summary_entries(albums@, factors@, Feature::PrimaryGenres), res.primary_genres@),
            is_tally(summary_entries(albums@, factors@, Feature::SecondaryGenres), res.secondary_genres@),
            is_tally(summary_entries(albums@, factors@, Feature::Descriptors), res.descriptors@),
            is_tally(summary_entries(albums@, factors@, Feature::Years), res.years@),
            is_tally(summary_entries(albums@, factors@, Feature::Decades), res.decades@),
            is_tally(summary_entries(albums@, factors@, Feature::CreditTags), res.credit_tags@),
            sorted_desc(res.artists@),
            sorted_desc(res.primary_genres@),
            sorted_desc(res.secondary_genres@),
            sorted_desc(res.descriptors@),
            sorted_desc(res.years@),
            sorted_desc(res.decades@),
            sorted_desc(res.credit_tags@),
            is_field_tally(albums@, factors@, |a: AlbumReadModel| a.artists@.map_values(|x: crate::albums::album_read_model::AlbumReadModelArtist| x.name@), res.artists@),
            is_field_tally(albums@, factors@, |a: AlbumReadModel| texts(a.primary_genres@), res.primary_genres@),
            is_field_tally(albums@, factors@, |a: AlbumReadModel| texts(a.secondary_genres@), res.secondary_genres@),
            is_field_tally(albums@, factors@, |a: AlbumReadModel| texts(a.descriptors@), res.descriptors@),
            is_field_tally(albums@, factors@, |a: AlbumReadModel| spec_credit_tags(a.credits@), res.credit_tags@),
            is_field_tally(
                albums@,
                factors@,
                |a: AlbumReadModel| match a.release_date {
                    Some(d) => seq![decimal((d.year as u32) as nat)],
                    None => Seq::<Seq<char>>::empty(),
                },
                res.years@,
            ),
            is_field_tally(
                albums@,
                factors@,
                |a: AlbumReadModel| match a.release_date {
                    Some(d) => seq![decimal(((d.year as u32) - (d.year as u32) % 10) as nat)],
                    None => Seq::<Seq<char>>::empty(),
                },
                res.decades@,
            ),
    {
        let e = feature_entries_of(&albums, &factors, Feature::Artists);
        let artists = ranked_tally(&e);
        let e = feature_entries_of(&albums, &factors, Feature::PrimaryGenres);
        let primary_genres = ranked_tally(&e);
        let e = feature_entries_of(&albums, &factors, Feature::SecondaryGenres);
        let secondary_genres = ranked_tally(&e);
        let e = feature_entries_of(&albums, &factors, Feature::Descriptors);
        let descriptors = ranked_tally(&e);
        let e = feature_entries_of(&albums, &factors, Feature::Years);
        let years = ranked_tally(&e);
        let e = feature_entries_of(&albums, &factors, Feature::Decades);
        let decades = ranked_tally(&e);
        let e = feature_entries_of(&albums, &factors, Feature::CreditTags);
        let credit_tags = ranked_tally(&e);
        proof {
            let f_artists = |a: AlbumReadModel| a.artists@.map_values(|x: crate::albums::album_read_model::AlbumReadModelArtist| x.name@);
            assert forall|a: AlbumReadModel, w: u32| #[trigger] feature_entries(a, w, Feature::Artists) == weighted(f_artists(a), w) by {
                assert(feature_entries(a, w, Feature::Artists) =~= weighted(f_artists(a), w));
            }
            lemma_tally_is_field_tally(albums@, factors@, Feature::Artists, f_artists, artists@);
            let f_primary = |a: AlbumReadModel| texts(a.primary_genres@);
            assert forall|a: AlbumReadModel, w: u32| #[trigger] feature_entries(a, w, Feature::PrimaryGenres) == weighted(f_primary(a), w) by {}
            lemma_tally_is_field_tally(albums@, factors@, Feature::PrimaryGenres, f_primary, primary_genres@);
            let f_secondary = |a: AlbumReadModel| texts(a.secondary_genres@);
            assert forall|a: AlbumReadModel, w: u32| #[trigger] feature_entries(a, w, Feature::SecondaryGenres) == weighted(f_secondary(a), w) by {}
            lemma_tally_is_field_tally(albums@, factors@, Feature::SecondaryGenres, f_secondary, secondary_genres@);
            let f_descriptors = |a: AlbumReadModel| texts(a.descriptors@);
            assert forall|a: AlbumReadModel, w: u32| #[trigger] feature_entries(a, w, Feature::Descriptors) == weighted(f_descriptors(a), w) by {}
            lemma_tally_is_field_tally(albums@, factors@, Feature::Descriptors, f_descriptors, descriptors@);
            let f_credits = |a: AlbumReadModel| spec_credit_tags(a.credits@);
            assert forall|a: AlbumReadModel, w: u32| #[trigger] feature_entries(a, w, Feature::CreditTags) == weighted(f_credits(a), w) by {}
            lemma_tally_is_field_tally(albums@, factors@, Feature::CreditTags, f_credits, credit_tags@);
            let f_years = |a: AlbumReadModel| match a.release_date {
                Some(d) => seq![decimal((d.year as u32) as nat)],
                None => Seq::<Seq<char>>::empty(),
            };
            assert forall|a: AlbumReadModel, w: u32| #[trigger] feature_entries(a, w, Feature::Years) == weighted(f_years(a), w) by {
                assert(feature_entries(a, w, Feature::Years) =~= weighted(f_years(a), w));
            }
            lemma_tally_is_field_tally(albums@, factors@, Feature::Years, f_years, years@);
            let f_decades = |a: AlbumReadModel| match a.release_date {
                Some(d) => seq![decimal(((d.year as u32) - (d.year as u32) % 10) as nat)],
                None => Seq::<Seq<char>>::empty(),
            };
            assert forall|a: AlbumReadModel, w: u32| #[trigger] feature_entries(a, w, Feature::Decades) == weighted(f_decades(a), w) by {
                assert(feature_entries(a, w, Feature::Decades) =~= weighted(f_decades(a), w));
            }
            lemma_tally_is_field_tally(albums@, factors@, Feature::Decades, f_decades, decades@);
        }
        AlbumCollectionSummary {
            artists,
            primary_genres,
            secondary_genres,
            descriptors,
            years,
            decades,
            credit_tags,
        }
    }
}

} // verus!
