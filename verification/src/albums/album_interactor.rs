//! The album interactor's decisions: which albums duplicate one another,
//! which artists albums relate to, and how a similarity search is filtered.
use crate::albums::album_read_model::{AlbumReadModel, spec_ascii, to_ascii};
use crate::albums::album_repository::{GenreAggregate, ItemAndCount};
use crate::albums::album_search_index::{AlbumSearchQuery, no_filter_but_excluded, same_filters_but_excluded};
use crate::file_name::FileName;
use crate::lexical::{names_ascending, sort_names};
use vstd::prelude::*;

verus! {

broadcast use vstd::seq_lib::group_to_multiset_ensures;

/// What the catalogue holds, counted and aggregated.
pub struct AlbumMonitor {
    pub album_count: u32,
    pub artist_count: u32,
    pub genre_count: u32,
    pub descriptor_count: u32,
    pub duplicate_count: u32,
    pub language_count: u32,
    pub spotify_id_count: u32,
    pub aggregated_genres: Vec<GenreAggregate>,
    pub aggregated_descriptors: Vec<ItemAndCount>,
    pub aggregated_languages: Vec<ItemAndCount>,
    pub aggregated_years: Vec<ItemAndCount>,
}

/// The code of a character with ASCII capitals lowered.
pub open spec fn ascii_lower_code(c: char) -> u32 {
    let u = c as u32;
    if 65 <= u && u <= 90 {
        (u + 32) as u32
    } else {
        u
    }
}

/// `str::eq_ignore_ascii_case`: equal up to the case of ASCII letters.
pub open spec fn same_ignoring_ascii_case(a: Seq<char>, b: Seq<char>) -> bool {
    a.len() == b.len() && forall|i: int| 0 <= i < a.len() ==> #[trigger] ascii_lower_code(a[i])
        == ascii_lower_code(b[i])
}

fn ascii_lower_code_exec(c: char) -> (res: u32)
    ensures
        res == ascii_lower_code(c),
{
    let u = c as u32;
    if 65 <= u && u <= 90 {
        u + 32
    } else {
        u
    }
}

/// Whether two texts are equal up to the case of ASCII letters.
pub fn eq_ignore_ascii_case(a: &str, b: &str) -> (res: bool)
    ensures
        res == same_ignoring_ascii_case(a@, b@),
{
    let x = crate::text::chars_of(a);
    let y = crate::text::chars_of(b);
    if x.len() != y.len() {
        return false;
    }
    for i in 0..x.len()
        invariant
            x@ == a@,
            y@ == b@,
            x@.len() == y@.len(),
            forall|k: int| 0 <= k < i ==> #[trigger] ascii_lower_code(a@[k]) == ascii_lower_code(b@[k]),
    {
        if ascii_lower_code_exec(x[i]) != ascii_lower_code_exec(y[i]) {
            return false;
        }
    }
    true
}

/// The albums among `found` whose ASCII name equals `title` up to case.
pub open spec fn title_candidates(found: Seq<AlbumReadModel>, title: Seq<char>) -> Seq<AlbumReadModel>
    decreases found.len(),
{
    if found.len() == 0 {
        Seq::empty()
    } else if same_ignoring_ascii_case(spec_ascii(found.last().name@), title) {
        title_candidates(found.drop_last(), title).push(found.last())
    } else {
        title_candidates(found.drop_last(), title)
    }
}

/// The position of the first album with the most ratings.
pub open spec fn first_max_index(c: Seq<AlbumReadModel>) -> int
    decreases c.len(),
{
    if c.len() <= 1 {
        0
    } else {
        let k = first_max_index(c.drop_last());
        if c.last().rating_count > c[k].rating_count {
            c.len() - 1
        } else {
            k
        }
    }
}

/// The page names of albums, in order.
pub open spec fn album_names(albums: Seq<AlbumReadModel>) -> Seq<FileName> {
    albums.map_values(|a: AlbumReadModel| a.file_name)
}

/// The views of page names, in order.
pub open spec fn name_views(v: Seq<FileName>) -> Seq<Seq<char>> {
    v.map_values(|f: FileName| f@)
}

/// An album must be marked a duplicate of `original` unless it already is.
pub open spec fn must_mark(a: AlbumReadModel, original: Seq<char>) -> bool {
    match a.duplicate_of {
        Some(d) => d@ != original,
        None => true,
    }
}

/// The page names of the albums that must be marked, in order.
pub open spec fn marks(albums: Seq<AlbumReadModel>, original: Seq<char>) -> Seq<Seq<char>>
    decreases albums.len(),
{
    if albums.len() == 0 {
        Seq::empty()
    } else if must_mark(albums.last(), original) {
        marks(albums.drop_last(), original).push(albums.last().file_name@)
    } else {
        marks(albums.drop_last(), original)
    }
}

/// How many albums at the front of `s` have at least `r` ratings.
pub open spec fn leading_at_least(s: Seq<AlbumReadModel>, r: u32) -> int
    decreases s.len(),
{
    if s.len() == 0 || s[0].rating_count < r {
        0
    } else {
        1 + leading_at_least(s.skip(1), r)
    }
}

/// The albums ordered by rating count, most first, albums with equal
/// counts kept in their order: each album goes after every earlier one
/// with at least as many ratings.
pub open spec fn rank_by_rating(s: Seq<AlbumReadModel>) -> Seq<AlbumReadModel>
    decreases s.len(),
{
    if s.len() == 0 {
        s
    } else {
        let r = rank_by_rating(s.drop_last());
        let p = leading_at_least(r, s.last().rating_count);
        r.take(p) + seq![s.last()] + r.skip(p)
    }
}

/// The rating counts do not increase along `s`.
pub open spec fn rating_desc(s: Seq<AlbumReadModel>) -> bool {
    forall|i: int, j: int| 0 <= i < j < s.len() ==> s[i].rating_count >= s[j].rating_count
}

proof fn lemma_leading_at_least(s: Seq<AlbumReadModel>, r: u32)
    ensures
        0 <= leading_at_least(s, r) <= s.len(),
        forall|k: int| 0 <= k < leading_at_least(s, r) ==> #[trigger] s[k].rating_count >= r,
        leading_at_least(s, r) < s.len() ==> s[leading_at_least(s, r)].rating_count < r,
    decreases s.len(),
{
    if s.len() > 0 && s[0].rating_count >= r {
        lemma_leading_at_least(s.skip(1), r);
        assert forall|k: int| 0 <= k < leading_at_least(s, r) implies #[trigger] s[k].rating_count >= r by {
            if k > 0 {
                assert(s[k] == s.skip(1)[k - 1]);
            }
        }
        if leading_at_least(s, r) < s.len() {
            assert(s[leading_at_least(s, r)] == s.skip(1)[leading_at_least(s.skip(1), r)]);
        }
    }
}

proof fn lemma_leading_is(s: Seq<AlbumReadModel>, r: u32, j: int)
    requires
        0 <= j <= s.len(),
        forall|k: int| 0 <= k < j ==> #[trigger] s[k].rating_count >= r,
        j < s.len() ==> s[j].rating_count < r,
    ensures
        leading_at_least(s, r) == j,
    decreases s.len(),
{
    if s.len() > 0 && j > 0 {
        assert(s[0].rating_count >= r);
        assert forall|k: int| 0 <= k < j - 1 implies #[trigger] s.skip(1)[k].rating_count >= r by {
            assert(s.skip(1)[k] == s[k + 1]);
        }
        if j - 1 < s.skip(1).len() {
            assert(s.skip(1)[j - 1] == s[j]);
        }
        lemma_leading_is(s.skip(1), r, j - 1);
    }
}

/// Ordering albums by rating count gives them most ratings first, and the
/// same albums.
pub proof fn lemma_rank_by_rating(s: Seq<AlbumReadModel>)
    ensures
        rating_desc(rank_by_rating(s)),
        rank_by_rating(s).to_multiset() == s.to_multiset(),
    decreases s.len(),
{
    if s.len() > 0 {
        let r = rank_by_rating(s.drop_last());
        let x = s.last();
        lemma_rank_by_rating(s.drop_last());
        lemma_leading_at_least(r, x.rating_count);
        let p = leading_at_least(r, x.rating_count);
        let t = r.take(p) + seq![x] + r.skip(p);
        assert(t == rank_by_rating(s));
        assert forall|i: int, j: int| 0 <= i < j < t.len() implies t[i].rating_count >= t[j].rating_count by {
            if i < p && j < p {
                assert(t[i] == r[i] && t[j] == r[j]);
            } else if i < p && j == p {
                assert(t[i] == r[i]);
            } else if i < p {
                assert(t[i] == r[i] && t[j] == r[j - 1]);
            } else if i == p {
                assert(t[j] == r[j - 1]);
                assert(r[p].rating_count < x.rating_count);
                assert(r[p].rating_count >= r[j - 1].rating_count || p == j - 1);
            } else {
                assert(t[i] == r[i - 1] && t[j] == r[j - 1]);
            }
        }
        assert(r.take(p) + r.skip(p) =~= r);
        vstd::seq_lib::lemma_multiset_commutative(r.take(p), seq![x] + r.skip(p));
        vstd::seq_lib::lemma_multiset_commutative(seq![x], r.skip(p));
        vstd::seq_lib::lemma_multiset_commutative(r.take(p), r.skip(p));
        assert(t =~= r.take(p) + (seq![x] + r.skip(p)));
        assert(s =~= s.drop_last().push(x));
        vstd::seq_lib::lemma_multiset_commutative(s.drop_last(), seq![x]);
        assert(s.drop_last() + seq![x] =~= s);
    }
}

/// What to record of a group of albums that are one another's duplicates.
pub struct DuplicationPlan {
    /// The album that the others duplicate: the one with most ratings.
    pub original: FileName,
    /// The page names of the others, in ascending order.
    pub duplicates: Vec<FileName>,
    /// Whether the original's stored duplicates differ from these.
    pub update_original: bool,
    /// The others that are not yet marked duplicates of the original, most
    /// ratings first, albums with equal counts in the order they were found.
    pub mark_duplicate_of: Vec<FileName>,
}

fn candidate_indices(found: &Vec<AlbumReadModel>, title: &String) -> (res: Vec<usize>)
    ensures
        res@.len() == title_candidates(found@, title@).len(),
        forall|i: int| 0 <= i < res@.len() ==> #[trigger] res@[i] < found@.len() && found@[res@[i] as int]
            == title_candidates(found@, title@)[i],
{
    let mut res: Vec<usize> = Vec::new();
    for k in 0..found.len()
        invariant
            res@.len() == title_candidates(found@.take(k as int), title@).len(),
            forall|i: int| 0 <= i < res@.len() ==> #[trigger] res@[i] < found@.len() && found@[res@[i] as int]
                == title_candidates(found@.take(k as int), title@)[i],
    {
        proof {
            assert(found@.take(k + 1).drop_last() =~= found@.take(k as int));
            assert(found@.take(k + 1).last() == found@[k as int]);
        }
        let name = found[k].ascii_name();
        if eq_ignore_ascii_case(name.as_str(), title.as_str()) {
            res.push(k);
        }
    }
    proof {
        assert(found@.take(found@.len() as int) =~= found@);
    }
    res
}

/// The original of a group of duplicates has the most ratings, and no
/// album before it has as many.
pub proof fn lemma_original_has_most_ratings(c: Seq<AlbumReadModel>)
    requires
        c.len() > 0,
    ensures
        0 <= first_max_index(c) < c.len(),
        forall|i: int| 0 <= i < c.len() ==> #[trigger] c[i].rating_count <= c[first_max_index(c)].rating_count,
        forall|i: int| 0 <= i < first_max_index(c) ==> #[trigger] c[i].rating_count < c[first_max_index(c)].rating_count,
    decreases c.len(),
{
    if c.len() > 1 {
        let d = c.drop_last();
        lemma_original_has_most_ratings(d);
        let k = first_max_index(d);
        let o = first_max_index(c);
        assert(c[k] == d[k]);
        assert forall|i: int| 0 <= i < c.len() implies #[trigger] c[i].rating_count <= c[o].rating_count by {
            if i < c.len() - 1 {
                assert(c[i] == d[i]);
                assert(d[i].rating_count <= d[k].rating_count);
            }
        }
        assert forall|i: int| 0 <= i < o implies #[trigger] c[i].rating_count < c[o].rating_count by {
            if i < c.len() - 1 {
                assert(c[i] == d[i]);
                assert(d[i].rating_count <= d[k].rating_count);
                if o == k {
                    assert(d[i].rating_count < d[k].rating_count);
                }
            }
        }
    }
}

fn same_names(a: &Vec<FileName>, b: &Vec<FileName>) -> (res: bool)
    ensures
        res == (name_views(a@) == name_views(b@)),
{
    if a.len() != b.len() {
        proof {
            assert(name_views(a@).len() != name_views(b@).len());
        }
        return false;
    }
    for i in 0..a.len()
        invariant
            a@.len() == b@.len(),
            forall|k: int| 0 <= k < i ==> #[trigger] a@[k]@ == b@[k]@,
    {
        if !a[i].same_as(&b[i]) {
            proof {
                assert(name_views(a@)[i as int] != name_views(b@)[i as int]);
            }
            return false;
        }
    }
    proof {
        assert(name_views(a@) =~= name_views(b@));
    }
    true
}

/// Decides how the albums of `found` that bear `album`'s title (its ASCII
/// name, ignoring ASCII case) are recorded as duplicates: nothing when
/// there is at most one; otherwise the first with most ratings is the
/// original, and the others are its duplicates, marked most ratings first
/// (equal counts in the order found).
pub fn plan_duplicates(album: &AlbumReadModel, found: &Vec<AlbumReadModel>) -> (res: Option<DuplicationPlan>)
    ensures
        ({
            let c = title_candidates(found@, spec_ascii(album.name@));
            let o = first_max_index(c);
            let others = if c.len() > 0 {
                c.remove(o)
            } else {
                c
            };
            match res {
                None => c.len() <= 1,
                Some(plan) => {
                    &&& c.len() > 1
                    &&& plan.original@ == c[o].file_name@
                    &&& names_ascending(plan.duplicates@)
                    &&& plan.duplicates@.to_multiset() == album_names(others).to_multiset()
                    &&& plan.update_original == (name_views(c[o].duplicates@) != name_views(plan.duplicates@))
                    &&& name_views(plan.mark_duplicate_of@) == marks(rank_by_rating(others), c[o].file_name@)
                },
            }
        }),
{
    let title = to_ascii(album.name.as_str());
    let idx = candidate_indices(found, &title);
    let ghost c = title_candidates(found@, spec_ascii(album.name@));
    if idx.len() <= 1 {
        return None;
    }
    let mut o: usize = 0;
    for i in 1..idx.len()
        invariant
            idx@.len() == c.len(),
            c.len() > 1,
            forall|j: int| 0 <= j < idx@.len() ==> #[trigger] idx@[j] < found@.len() && found@[idx@[j] as int] == c[j],
            o < i,
            o == first_max_index(c.take(i as int)),
    {
        proof {
            assert(c.take(i + 1).drop_last() =~= c.take(i as int));
            assert(c.take(i + 1).last() == c[i as int]);
            assert(c.take(i + 1)[o as int] == c[o as int]);
            assert(found@[idx@[i as int] as int] == c[i as int]);
            assert(found@[idx@[o as int] as int] == c[o as int]);
        }
        if found[idx[i]].rating_count > found[idx[o]].rating_count {
            o = i;
        }
    }
    proof {
        assert(c.take(c.len() as int) =~= c);
        lemma_original_has_most_ratings(c);
    }
    let original = &found[idx[o]];
    let ghost others = c.remove(o as int);
    let mut duplicates: Vec<FileName> = Vec::new();
    let mut ranked: Vec<usize> = Vec::new();
    for i in 0..idx.len()
        invariant
            idx@.len() == c.len(),
            o < c.len(),
            *original == c[o as int],
            others == c.remove(o as int),
            forall|j: int| 0 <= j < idx@.len() ==> #[trigger] idx@[j] < found@.len() && found@[idx@[j] as int] == c[j],
            duplicates@ == album_names(prefix_without(c, o as int, i as int)),
            forall|j: int| 0 <= j < ranked@.len() ==> #[trigger] ranked@[j] < found@.len(),
            ranked@.map_values(|k: usize| found@[k as int]) == rank_by_rating(prefix_without(c, o as int, i as int)),
    {
        proof {
            assert(found@[idx@[i as int] as int] == c[i as int]);
            lemma_remove_step(c, o as int, i as int);
        }
        if i != o {
            let a = &found[idx[i]];
            let f = a.file_name.clone();
            let ghost before = duplicates@;
            duplicates.push(f);
            proof {
                assert(duplicates@ =~= before.push(a.file_name));
                assert(album_names(prefix_without(c, o as int, i + 1)) =~= album_names(
                    prefix_without(c, o as int, i as int),
                ).push(c[i as int].file_name));
            }
            let ghost pre = prefix_without(c, o as int, i as int);
            let ghost r = rank_by_rating(pre);
            let r_count = a.rating_count;
            let mut p: usize = 0;
            while p < ranked.len() && found[ranked[p]].rating_count >= r_count
                invariant
                    p <= ranked@.len(),
                    forall|j: int| 0 <= j < ranked@.len() ==> #[trigger] ranked@[j] < found@.len(),
                    ranked@.map_values(|k: usize| found@[k as int]) == r,
                    forall|k: int| 0 <= k < p ==> #[trigger] r[k].rating_count >= r_count,
                decreases ranked@.len() - p,
            {
                proof {
                    assert(r[p as int] == found@[ranked@[p as int] as int]);
                }
                p = p + 1;
            }
            proof {
                if p < ranked@.len() {
                    assert(r[p as int] == found@[ranked@[p as int] as int]);
                }
                lemma_leading_is(r, r_count, p as int);
                assert(prefix_without(c, o as int, i + 1).drop_last() =~= pre);
                assert(prefix_without(c, o as int, i + 1).last() == *a);
            }
            let ghost old_ranked = ranked@;
            ranked.insert(p, idx[i]);
            proof {
                assert(ranked@ =~= old_ranked.insert(p as int, idx@[i as int]));
                assert(ranked@.map_values(|k: usize| found@[k as int]) =~= r.take(p as int) + seq![*a] + r.skip(p as int));
            }
        }
    }
    proof {
        assert(c.take(c.len() as int) =~= c);
        lemma_remove_whole(c, o as int);
    }
    let ghost ranked_albums = rank_by_rating(others);
    let mut marked: Vec<FileName> = Vec::new();
    for j in 0..ranked.len()
        invariant
            *original == c[o as int],
            forall|k: int| 0 <= k < ranked@.len() ==> #[trigger] ranked@[k] < found@.len(),
            ranked@.map_values(|k: usize| found@[k as int]) == ranked_albums,
            name_views(marked@) == marks(ranked_albums.take(j as int), original.file_name@),
    {
        let a = &found[ranked[j]];
        proof {
            assert(*a == ranked_albums[j as int]);
            assert(ranked_albums.take(j + 1).drop_last() =~= ranked_albums.take(j as int));
            assert(ranked_albums.take(j + 1).last() == *a);
        }
        let must = match &a.duplicate_of {
            Some(d) => !d.same_as(&original.file_name),
            None => true,
        };
        if must {
            let g = a.file_name.clone();
            let ghost before_m = marked@;
            marked.push(g);
            proof {
                assert(marked@ =~= before_m.push(g));
                assert(name_views(marked@) =~= name_views(before_m).push(g@));
            }
        }
    }
    proof {
        assert(ranked_albums.take(ranked_albums.len() as int) =~= ranked_albums);
    }
    sort_names(&mut duplicates);
    let update_original = !same_names(&original.duplicates, &duplicates);
    Some(
        DuplicationPlan {
            original: original.file_name.clone(),
            duplicates,
            update_original,
            mark_duplicate_of: marked,
        },
    )
}

/// The first `n` albums of `c`, without the one at `o` if it is among
/// them.
pub open spec fn prefix_without(c: Seq<AlbumReadModel>, o: int, n: int) -> Seq<AlbumReadModel> {
    if o < n {
        c.take(n).remove(o)
    } else {
        c.take(n)
    }
}

proof fn lemma_remove_step(c: Seq<AlbumReadModel>, o: int, i: int)
    requires
        0 <= o < c.len(),
        0 <= i < c.len(),
    ensures
        prefix_without(c, o, i + 1) == if i == o {
            prefix_without(c, o, i)
        } else {
            prefix_without(c, o, i).push(c[i])
        },
{
    if i == o {
        assert(c.take(i + 1).remove(o) =~= c.take(i));
    } else if o < i {
        assert(c.take(i + 1).remove(o) =~= c.take(i).remove(o).push(c[i]));
    } else {
        assert(c.take(i + 1) =~= c.take(i).push(c[i]));
    }
}

proof fn lemma_remove_whole(c: Seq<AlbumReadModel>, o: int)
    requires
        0 <= o < c.len(),
    ensures
        prefix_without(c, o, c.len() as int) == c.remove(o),
{
    assert(c.take(c.len() as int) =~= c);
}

/// The artists of an album: the credited ones, then its own.
pub open spec fn album_artist_names(a: AlbumReadModel) -> Seq<Seq<char>> {
    a.credits@.map_values(|c: crate::albums::album_read_model::AlbumReadModelCredit| c.artist.file_name@)
        + a.artists@.map_values(|x: crate::albums::album_read_model::AlbumReadModelArtist| x.file_name@)
}

/// `x` is an artist of some album.
pub open spec fn is_related_artist(albums: Seq<AlbumReadModel>, x: Seq<char>) -> bool {
    exists|i: int| 0 <= i < albums.len() && #[trigger] album_artist_names(albums[i]).contains(x)
}

pub(crate) fn push_new_name(out: &mut Vec<FileName>, f: &FileName)
    ensures
        name_views(old(out)@).contains(f@) ==> final(out)@ == old(out)@,
        !name_views(old(out)@).contains(f@) ==> final(out)@ == old(out)@.push(*f),
        name_views(old(out)@).no_duplicates() ==> name_views(final(out)@).no_duplicates(),
        forall|x: Seq<char>| #[trigger] name_views(final(out)@).contains(x) <==> (name_views(old(out)@).contains(x) || x == f@),
{
    for k in 0..out.len()
        invariant
            forall|j: int| 0 <= j < k ==> #[trigger] out@[j]@ != f@,
    {
        if out[k].same_as(f) {
            proof {
                assert(name_views(out@)[k as int] == f@);
            }
            return;
        }
    }
    proof {
        assert(!name_views(out@).contains(f@)) by {
            if name_views(out@).contains(f@) {
                let j = choose|j: int| 0 <= j < name_views(out@).len() && name_views(out@)[j] == f@;
                assert(out@[j]@ == f@);
            }
        }
    }
    let ghost before = out@;
    out.push(f.clone());
    proof {
        assert(name_views(out@) =~= name_views(before).push(f@));
        assert forall|x: Seq<char>| #[trigger] name_views(out@).contains(x) <==> (name_views(before).contains(x) || x == f@) by {
            if name_views(out@).contains(x) {
                let j = choose|j: int| 0 <= j < name_views(out@).len() && name_views(out@)[j] == x;
                if j < before.len() {
                    assert(name_views(before)[j] == x);
                }
            }
            if name_views(before).contains(x) {
                let j = choose|j: int| 0 <= j < name_views(before).len() && name_views(before)[j] == x;
                assert(name_views(out@)[j] == x);
            }
            if x == f@ {
                assert(name_views(out@)[before.len() as int] == x);
            }
        }
    }
}

/// The page names of an album's credited artists, then of its artists.
fn album_artist_file_names(a: &AlbumReadModel) -> (res: Vec<FileName>)
    ensures
        name_views(res@) == album_artist_names(*a),
{
    let mut res: Vec<FileName> = Vec::new();
    for j in 0..a.credits.len()
        invariant
            name_views(res@) == a.credits@.take(j as int).map_values(
                |c: crate::albums::album_read_model::AlbumReadModelCredit| c.artist.file_name@,
            ),
    {
        let ghost before = res@;
        let f = a.credits[j].artist.file_name.clone();
        res.push(f);
        proof {
            assert(name_views(res@) =~= name_views(before).push(f@));
            assert(a.credits@.take(j + 1) =~= a.credits@.take(j as int).push(a.credits@[j as int]));
        }
    }
    proof {
        assert(a.credits@.take(a.credits@.len() as int) =~= a.credits@);
    }
    let ghost head = name_views(res@);
    for j in 0..a.artists.len()
        invariant
            name_views(res@) == head + a.artists@.take(j as int).map_values(
                |x: crate::albums::album_read_model::AlbumReadModelArtist| x.file_name@,
            ),
    {
        let ghost before = res@;
        let f = a.artists[j].file_name.clone();
        res.push(f);
        proof {
            assert(name_views(res@) =~= name_views(before).push(f@));
            assert(a.artists@.take(j + 1) =~= a.artists@.take(j as int).push(a.artists@[j as int]));
        }
    }
    proof {
        assert(a.artists@.take(a.artists@.len() as int) =~= a.artists@);
    }
    res
}

/// The artists related to albums: every credited artist and every album
/// artist, each once.
pub fn related_artist_file_names(albums: &Vec<AlbumReadModel>) -> (res: Vec<FileName>)
    ensures
        name_views(res@).no_duplicates(),
        forall|x: Seq<char>| name_views(res@).contains(x) <==> is_related_artist(albums@, x),
{
    let mut res: Vec<FileName> = Vec::new();
    for i in 0..albums.len()
        invariant
            name_views(res@).no_duplicates(),
            forall|x: Seq<char>| #[trigger] name_views(res@).contains(x) <==> is_related_artist(albums@.take(i as int), x),
    {
        let a = &albums[i];
        let names = album_artist_file_names(a);
        let ghost start = res@;
        for j in 0..names.len()
            invariant
                name_views(res@).no_duplicates(),
                forall|x: Seq<char>| #[trigger] name_views(res@).contains(x) <==> (name_views(start).contains(x) || name_views(names@).take(j as int).contains(x)),
        {
            let ghost before = res@;
            push_new_name(&mut res, &names[j]);
            proof {
                let nv = name_views(names@);
                let t0 = nv.take(j as int);
                let t1 = nv.take(j + 1);
                assert(t1 =~= t0.push(nv[j as int]));
                assert forall|x: Seq<char>| #[trigger] name_views(res@).contains(x) <==> (name_views(start).contains(x) || t1.contains(x)) by {
                    assert(name_views(res@).contains(x) <==> (name_views(before).contains(x) || x == names@[j as int]@));
                    if t1.contains(x) && !t0.contains(x) {
                        let w = choose|w: int| 0 <= w < t1.len() && t1[w] == x;
                        if w < j {
                            assert(t0[w] == x);
                        }
                    }
                    if t0.contains(x) {
                        let w = choose|w: int| 0 <= w < t0.len() && t0[w] == x;
                        assert(t1[w] == x);
                    }
                    if x == names@[j as int]@ {
                        assert(t1[j as int] == x);
                    }
                }
            }
        }
        proof {
            let nv = name_views(names@);
            assert(nv.take(nv.len() as int) =~= nv);
            assert(nv == album_artist_names(*a));
            assert forall|x: Seq<char>| #[trigger] name_views(res@).contains(x) <==> is_related_artist(albums@.take(i + 1), x) by {
                if is_related_artist(albums@.take(i + 1), x) {
                    let w = choose|w: int| 0 <= w < albums@.take(i + 1).len() && #[trigger] album_artist_names(albums@.take(i + 1)[w]).contains(x);
                    if w < i {
                        assert(albums@.take(i as int)[w] == albums@.take(i + 1)[w]);
                        assert(is_related_artist(albums@.take(i as int), x));
                    } else {
                        assert(albums@.take(i + 1)[w] == *a);
                    }
                }
                if is_related_artist(albums@.take(i as int), x) {
                    let w = choose|w: int| 0 <= w < albums@.take(i as int).len() && #[trigger] album_artist_names(albums@.take(i as int)[w]).contains(x);
                    assert(albums@.take(i as int)[w] == albums@.take(i + 1)[w]);
                }
                if nv.contains(x) {
                    assert(albums@.take(i + 1)[i as int] == *a);
                }
            }
        }
    }
    proof {
        assert(albums@.take(albums@.len() as int) =~= albums@);
    }
    res
}

/// The page name through which a deleted album's duplicates are processed
/// again: the album it duplicates, else its first duplicate.
pub fn duplicate_link(album: &AlbumReadModel) -> (res: Option<FileName>)
    ensures
        res == match album.duplicate_of {
            Some(d) => Some(d),
            None => if album.duplicates@.len() > 0 {
                Some(album.duplicates@[0])
            } else {
                None
            },
        },
{
    match &album.duplicate_of {
        Some(d) => Some(d.clone()),
        None => {
            if album.duplicates.len() > 0 {
                Some(album.duplicates[0].clone())
            } else {
                None
            }
        },
    }
}

/// The filters of a search for albums similar to `file_name`: the given
/// ones (none if none are given) with `file_name` excluded, added at the
/// end unless it is excluded already.
pub fn similarity_filters(filters: Option<AlbumSearchQuery>, file_name: FileName) -> (res: AlbumSearchQuery)
    ensures
        ({
            let excluded = match filters {
                Some(q) => q.exclude_file_names@,
                None => Seq::<FileName>::empty(),
            };
            if name_views(excluded).contains(file_name@) {
                res.exclude_file_names@ == excluded
            } else {
                res.exclude_file_names@ == excluded.push(file_name)
            }
        }),
        match filters {
            Some(q) => same_filters_but_excluded(res, q),
            None => no_filter_but_excluded(res),
        },
{
    let mut q = match filters {
        Some(q) => q,
        None => AlbumSearchQuery::new(),
    };
    let ghost before = q;
    push_new_name(&mut q.exclude_file_names, &file_name);
    q
}

} // verus!
