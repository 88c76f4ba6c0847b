//! Albums as read from the relational store: which albums duplicate which,
//! built from the rows of the duplicates table.
use crate::albums::album_read_model::{
    AlbumReadModel, AlbumReadModelArtist, AlbumReadModelCredit, CalendarDate,
};
use crate::file_name::FileName;
use std::collections::HashMap;
use vstd::prelude::*;

verus! {

broadcast use {
    vstd::std_specs::hash::axiom_i64_obeys_hash_table_key_model,
    vstd::std_specs::hash::axiom_random_state_builds_valid_hashers,
    vstd::std_specs::hash::axiom_contains_deref_key,
    vstd::std_specs::hash::axiom_maps_deref_key_to_value,
};

/// Albums read and written through the SQL connection `C`.
pub struct SqliteAlbumRepository<C> {
    pub sqlite_connection: C,
}

impl<C> SqliteAlbumRepository<C> {
    /// A repository over the connection `sqlite_connection`.
    pub fn new(sqlite_connection: C) -> (res: Self)
        ensures
            res.sqlite_connection == sqlite_connection,
    {
        Self { sqlite_connection }
    }
}

/// How an album stands among duplicates: it has these duplicates (perhaps
/// none), or it duplicates that album.
pub enum AlbumDuplication {
    Duplicates(Vec<FileName>),
    DuplicateOf(FileName),
}

/// The page names that an [`AlbumDuplication`] holds.
pub enum DuplicationView {
    Duplicates(Seq<Seq<char>>),
    DuplicateOf(Seq<char>),
}

impl View for AlbumDuplication {
    type V = DuplicationView;

    open spec fn view(&self) -> DuplicationView {
        match self {
            AlbumDuplication::Duplicates(v) => DuplicationView::Duplicates(
                v@.map_values(|f: FileName| f@),
            ),
            AlbumDuplication::DuplicateOf(f) => DuplicationView::DuplicateOf(f@),
        }
    }
}

/// A row of the duplicates table: the original album and a duplicate of
/// it, by id and by page name.
pub struct DuplicationRow {
    pub original_album_id: i64,
    pub duplicate_album_id: i64,
    pub original_file_name: FileName,
    pub duplicate_file_name: FileName,
}

/// How the albums stand after the rows: each row adds its duplicate to its
/// original's duplicates and marks the duplicate as duplicating the
/// original, the later row winning.
pub open spec fn duplication_state(rows: Seq<DuplicationRow>) -> Map<i64, DuplicationView>
    decreases rows.len(),
{
    if rows.len() == 0 {
        Map::empty()
    } else {
        let s = duplication_state(rows.drop_last());
        let r = rows.last();
        let known = if s.contains_key(r.original_album_id) {
            s[r.original_album_id]
        } else {
            DuplicationView::Duplicates(Seq::empty())
        };
        let updated = match known {
            DuplicationView::Duplicates(v) => DuplicationView::Duplicates(v.push(r.duplicate_file_name@)),
            DuplicationView::DuplicateOf(f) => DuplicationView::DuplicateOf(f),
        };
        s.insert(r.original_album_id, updated).insert(
            r.duplicate_album_id,
            DuplicationView::DuplicateOf(r.original_file_name@),
        )
    }
}

/// No row names as original an album that the rows before it mark as a
/// duplicate; such data is refused.
pub open spec fn duplication_consistent(rows: Seq<DuplicationRow>) -> bool {
    forall|i: int| 0 <= i < rows.len() ==> !(#[trigger] duplication_state(rows.take(i)).contains_key(
        rows[i].original_album_id,
    ) && duplication_state(rows.take(i))[rows[i].original_album_id] is DuplicateOf)
}

/// The map holds exactly the albums of `state`, each as `state` has it.
pub open spec fn holds_state(m: Map<i64, AlbumDuplication>, state: Map<i64, DuplicationView>) -> bool {
    &&& forall|k: i64| #[trigger] m.contains_key(k) <==> state.contains_key(k)
    &&& forall|k: i64| #[trigger] m.contains_key(k) ==> m[k]@ == state[k]
}

/// How the albums of the rows stand among duplicates.
pub fn find_album_duplication(rows: &Vec<DuplicationRow>) -> (res: HashMap<i64, AlbumDuplication>)
    requires
        duplication_consistent(rows@),
    ensures
        holds_state(res@, duplication_state(rows@)),
{
    let mut result: HashMap<i64, AlbumDuplication> = HashMap::new();
    proof {
        assert(rows@.take(0) =~= Seq::<DuplicationRow>::empty());
        assert(duplication_state(rows@.take(0)) =~= Map::<i64, DuplicationView>::empty());
    }
    for i in 0..rows.len()
        invariant
            duplication_consistent(rows@),
            holds_state(result@, duplication_state(rows@.take(i as int))),
    {
        let row = &rows[i];
        let ghost s = duplication_state(rows@.take(i as int));
        proof {
            assert(rows@.take(i + 1).drop_last() =~= rows@.take(i as int));
            assert(rows@.take(i + 1).last() == *row);
            assert(!(s.contains_key(row.original_album_id) && s[row.original_album_id] is DuplicateOf));
        }
        let ghost before = result@;
        let known = result.remove(&row.original_album_id);
        let mut duplicates: Vec<FileName> = match known {
            Some(AlbumDuplication::Duplicates(v)) => v,
            Some(AlbumDuplication::DuplicateOf(_)) => {
                proof {
                    assert(before.contains_key(row.original_album_id));
                    assert(before[row.original_album_id]@ is DuplicateOf);
                }
                Vec::new()
            },
            None => Vec::new(),
        };
        let ghost prior = duplicates@;
        proof {
            if s.contains_key(row.original_album_id) {
                assert(before.contains_key(row.original_album_id));
                assert(s[row.original_album_id] == before[row.original_album_id]@);
                assert(s[row.original_album_id] == DuplicationView::Duplicates(prior.map_values(|f: FileName| f@)));
            } else {
                assert(prior.map_values(|f: FileName| f@) =~= Seq::<Seq<char>>::empty());
            }
        }
        duplicates.push(row.duplicate_file_name.clone());
        proof {
            assert(duplicates@.map_values(|f: FileName| f@) =~= prior.map_values(|f: FileName| f@).push(
                row.duplicate_file_name@,
            ));
        }
        result.insert(row.original_album_id, AlbumDuplication::Duplicates(duplicates));
        result.insert(
            row.duplicate_album_id,
            AlbumDuplication::DuplicateOf(row.original_file_name.clone()),
        );
        proof {
            let s1 = duplication_state(rows@.take(i + 1));
            assert forall|k: i64| #[trigger] result@.contains_key(k) <==> s1.contains_key(k) by {}
            assert forall|k: i64| #[trigger] result@.contains_key(k) implies result@[k]@ == s1[k] by {
                if k != row.duplicate_album_id && k != row.original_album_id {
                    assert(result@[k] == before[k]);
                } else if k == row.original_album_id && k != row.duplicate_album_id {
                    assert(result@[k]@ == DuplicationView::Duplicates(duplicates@.map_values(|f: FileName| f@)));
                }
            }
        }
    }
    proof {
        assert(rows@.take(rows@.len() as int) =~= rows@);
    }
    result
}

/// The duplicate-of and duplicates fields of an album from how it stands:
/// an album with no standing has neither.
pub fn duplication_fields(d: Option<AlbumDuplication>) -> (res: (Option<FileName>, Vec<FileName>))
    ensures
        match d {
            Some(AlbumDuplication::Duplicates(v)) => res.0 is None && res.1@ == v@,
            Some(AlbumDuplication::DuplicateOf(f)) => res.0 == Some(f) && res.1@.len() == 0,
            None => res.0 is None && res.1@.len() == 0,
        },
{
    match d {
        Some(AlbumDuplication::Duplicates(v)) => (None, v),
        Some(AlbumDuplication::DuplicateOf(f)) => (Some(f), Vec::new()),
        None => (None, Vec::new()),
    }
}

/// A row of the credits query: an album, a credited artist by page name
/// and name, and one role of the credit.
pub struct CreditRow {
    pub album_id: i64,
    pub artist_file_name: FileName,
    pub artist_name: String,
    pub role: String,
}

/// A credit by the page name and name of its artist and its roles.
pub type CreditView = (Seq<char>, Seq<char>, Seq<Seq<char>>);

/// The view of a credit.
pub open spec fn credit_view(c: AlbumReadModelCredit) -> CreditView {
    (c.artist.file_name@, c.artist.name@, c.roles@.map_values(|r: String| r@))
}

/// The first credit of `list` whose artist has page name `f`.
pub open spec fn credit_index(list: Seq<CreditView>, f: Seq<char>) -> Option<int>
    decreases list.len(),
{
    if list.len() == 0 {
        None
    } else {
        match credit_index(list.drop_last(), f) {
            Some(k) => Some(k),
            None => if list.last().0 == f {
                Some(list.len() - 1)
            } else {
                None
            },
        }
    }
}

/// The credits after one more row: the row's role is added to the credit
/// of its artist, or a credit of the artist with that one role is added.
pub open spec fn add_credit_role(list: Seq<CreditView>, r: CreditRow) -> Seq<CreditView> {
    match credit_index(list, r.artist_file_name@) {
        Some(k) => list.update(k, (list[k].0, list[k].1, list[k].2.push(r.role@))),
        None => list.push((r.artist_file_name@, r.artist_name@, seq![r.role@])),
    }
}

/// The credits of each album after the rows.
pub open spec fn credit_state(rows: Seq<CreditRow>) -> Map<i64, Seq<CreditView>>
    decreases rows.len(),
{
    if rows.len() == 0 {
        Map::empty()
    } else {
        let s = credit_state(rows.drop_last());
        let r = rows.last();
        let list = if s.contains_key(r.album_id) {
            s[r.album_id]
        } else {
            Seq::empty()
        };
        s.insert(r.album_id, add_credit_role(list, r))
    }
}

/// The views of a list of credits.
pub open spec fn credits_view(v: Seq<AlbumReadModelCredit>) -> Seq<CreditView> {
    v.map_values(|c: AlbumReadModelCredit| credit_view(c))
}

fn find_credit(list: &Vec<AlbumReadModelCredit>, f: &FileName) -> (res: Option<usize>)
    ensures
        match res {
            Some(k) => k < list@.len() && credit_index(credits_view(list@), f@) == Some(k as int),
            None => credit_index(credits_view(list@), f@) is None,
        },
{
    let ghost lv = credits_view(list@);
    for k in 0..list.len()
        invariant
            lv == credits_view(list@),
            credit_index(lv.take(k as int), f@) is None,
    {
        proof {
            assert(lv.take(k + 1).drop_last() =~= lv.take(k as int));
        }
        if list[k].artist.file_name.same_as(f) {
            proof {
                lemma_credit_index_prefix(lv, k + 1, f@);
            }
            return Some(k);
        }
    }
    proof {
        assert(lv.take(list@.len() as int) =~= lv);
    }
    None
}

proof fn lemma_credit_index_prefix(list: Seq<CreditView>, n: int, f: Seq<char>)
    requires
        0 <= n <= list.len(),
        credit_index(list.take(n), f) is Some,
    ensures
        credit_index(list, f) == credit_index(list.take(n), f),
    decreases list.len() - n,
{
    if n < list.len() {
        assert(list.take(n + 1).drop_last() =~= list.take(n));
        lemma_credit_index_prefix(list, n + 1, f);
    } else {
        assert(list.take(n) =~= list);
    }
}

/// The credits of each album, gathered from the rows of the credits query:
/// one credit per artist, in the order of the artist's first row, with its
/// roles in row order.
pub fn find_album_credits(rows: &Vec<CreditRow>) -> (res: HashMap<i64, Vec<AlbumReadModelCredit>>)
    ensures
        forall|k: i64| #[trigger] res@.contains_key(k) <==> credit_state(rows@).contains_key(k),
        forall|k: i64| #[trigger] res@.contains_key(k) ==> credits_view(res@[k]@) == credit_state(rows@)[k],
{
    let mut result: HashMap<i64, Vec<AlbumReadModelCredit>> = HashMap::new();
    proof {
        assert(rows@.take(0) =~= Seq::<CreditRow>::empty());
        assert(credit_state(rows@.take(0)) =~= Map::<i64, Seq<CreditView>>::empty());
    }
    for i in 0..rows.len()
        invariant
            forall|k: i64| #[trigger] result@.contains_key(k) <==> credit_state(rows@.take(i as int)).contains_key(k),
            forall|k: i64| #[trigger] result@.contains_key(k) ==> credits_view(result@[k]@) == credit_state(rows@.take(i as int))[k],
    {
        let row = &rows[i];
        let ghost s = credit_state(rows@.take(i as int));
        proof {
            assert(rows@.take(i + 1).drop_last() =~= rows@.take(i as int));
            assert(rows@.take(i + 1).last() == *row);
        }
        let ghost before = result@;
        let known = result.remove(&row.album_id);
        let mut credits: Vec<AlbumReadModelCredit> = match known {
            Some(v) => v,
            None => Vec::new(),
        };
        let ghost list = credits_view(credits@);
        proof {
            if s.contains_key(row.album_id) {
                assert(before.contains_key(row.album_id));
                assert(list == s[row.album_id]);
            } else {
                assert(list =~= Seq::<CreditView>::empty());
            }
        }
        match find_credit(&credits, &row.artist_file_name) {
            Some(k) => {
                let ghost old_credits = credits@;
                let role = row.role.clone();
                credits[k].roles.push(role);
                proof {
                    assert(credits@[k as int].roles@.map_values(|r: String| r@) =~= old_credits[k as int].roles@.map_values(
                        |r: String| r@,
                    ).push(role@));
                    assert(credits_view(credits@) =~= add_credit_role(list, *row));
                }
            },
            None => {
                let mut roles: Vec<String> = Vec::new();
                roles.push(row.role.clone());
                let credit = AlbumReadModelCredit {
                    artist: AlbumReadModelArtist {
                        name: row.artist_name.clone(),
                        file_name: row.artist_file_name.clone(),
                    },
                    roles,
                };
                let ghost old_credits = credits@;
                credits.push(credit);
                proof {
                    assert(credit.roles@.map_values(|r: String| r@) =~= seq![row.role@]);
                    assert(credits_view(credits@) =~= add_credit_role(list, *row));
                }
            },
        }
        let ghost added = credits_view(credits@);
        result.insert(row.album_id, credits);
        proof {
            let s1 = credit_state(rows@.take(i + 1));
            assert forall|k: i64| #[trigger] result@.contains_key(k) <==> s1.contains_key(k) by {}
            assert forall|k: i64| #[trigger] result@.contains_key(k) implies credits_view(result@[k]@) == s1[k] by {
                if k != row.album_id {
                    assert(result@[k] == before[k]);
                }
            }
        }
    }
    proof {
        assert(rows@.take(rows@.len() as int) =~= rows@);
    }
    result
}

/// An album's own row: its id, names, rating count, release date and
/// cover. Its average rating, a floating-point figure, travels beside it.
pub struct AlbumEntity {
    pub id: i64,
    pub name: String,
    pub file_name: FileName,
    pub rating_count: u32,
    pub release_date: Option<CalendarDate>,
    pub cover_image_url: Option<String>,
}

/// The parts of albums read by album id: artists, primary and secondary
/// genres, descriptors, languages, credits and duplication.
pub struct AlbumParts {
    pub artists: HashMap<i64, Vec<AlbumReadModelArtist>>,
    pub genres: HashMap<i64, (Vec<String>, Vec<String>)>,
    pub descriptors: HashMap<i64, Vec<String>>,
    pub languages: HashMap<i64, Vec<String>>,
    pub credits: HashMap<i64, Vec<AlbumReadModelCredit>>,
    pub duplication: HashMap<i64, AlbumDuplication>,
}

/// The last entity with page name `f`.
pub open spec fn entity_of(entities: Seq<AlbumEntity>, f: Seq<char>) -> Option<AlbumEntity>
    decreases entities.len(),
{
    if entities.len() == 0 {
        None
    } else if entities.last().file_name@ == f {
        Some(entities.last())
    } else {
        entity_of(entities.drop_last(), f)
    }
}

/// The ids of the albums that the requested names found.
pub open spec fn claimed_ids(names: Seq<FileName>, entities: Seq<AlbumEntity>) -> Set<i64>
    decreases names.len(),
{
    if names.len() == 0 {
        Set::empty()
    } else {
        match entity_of(entities, names.last()@) {
            Some(e) => claimed_ids(names.drop_last(), entities).insert(e.id),
            None => claimed_ids(names.drop_last(), entities),
        }
    }
}

/// The list stored for `id`, unless an earlier request took it.
pub open spec fn list_for<T>(m: Map<i64, Vec<T>>, id: i64, claimed: Set<i64>) -> Seq<T> {
    if m.contains_key(id) && !claimed.contains(id) {
        m[id]@
    } else {
        Seq::empty()
    }
}

/// `a` is the album of entity `e` with the parts that were not taken.
pub open spec fn assembled_as(a: AlbumReadModel, e: AlbumEntity, parts: AlbumParts, claimed: Set<i64>) -> bool {
    let fresh = !claimed.contains(e.id);
    &&& a.name@ == e.name@
    &&& a.file_name@ == e.file_name@
    &&& a.rating_count == e.rating_count
    &&& a.release_date == e.release_date
    &&& a.cover_image_url == e.cover_image_url
    &&& a.artists@ == list_for(parts.artists@, e.id, claimed)
    &&& a.primary_genres@ == if fresh && parts.genres@.contains_key(e.id) {
        parts.genres@[e.id].0@
    } else {
        Seq::empty()
    }
    &&& a.secondary_genres@ == if fresh && parts.genres@.contains_key(e.id) {
        parts.genres@[e.id].1@
    } else {
        Seq::empty()
    }
    &&& a.descriptors@ == list_for(parts.descriptors@, e.id, claimed)
    &&& a.languages@ == list_for(parts.languages@, e.id, claimed)
    &&& a.credits@ == list_for(parts.credits@, e.id, claimed)
    &&& if fresh && parts.duplication@.contains_key(e.id) {
        match parts.duplication@[e.id] {
            AlbumDuplication::Duplicates(v) => a.duplicate_of is None && a.duplicates@ == v@,
            AlbumDuplication::DuplicateOf(f) => a.duplicate_of == Some(f) && a.duplicates@.len() == 0,
        }
    } else {
        a.duplicate_of is None && a.duplicates@.len() == 0
    }
}

/// `res` holds, in request order, the album of each of the first `n`
/// requested names that has an entity.
pub open spec fn assembled_all(
    res: Seq<AlbumReadModel>,
    names: Seq<FileName>,
    entities: Seq<AlbumEntity>,
    parts: AlbumParts,
    n: int,
) -> bool
    decreases n,
{
    if n <= 0 {
        res.len() == 0
    } else {
        match entity_of(entities, names[n - 1]@) {
            Some(e) => res.len() > 0 && assembled_as(res.last(), e, parts, claimed_ids(names.take(n - 1), entities))
                && assembled_all(res.drop_last(), names, entities, parts, n - 1),
            None => assembled_all(res, names, entities, parts, n - 1),
        }
    }
}

/// `cur` is `orig` without the entries of the claimed ids.
pub open spec fn taken_from<V>(cur: Map<i64, V>, orig: Map<i64, V>, claimed: Set<i64>) -> bool {
    &&& forall|k: i64| #[trigger] cur.contains_key(k) <==> (orig.contains_key(k) && !claimed.contains(k))
    &&& forall|k: i64| #[trigger] cur.contains_key(k) ==> cur[k] == orig[k]
}

fn take_list<T>(m: &mut HashMap<i64, Vec<T>>, id: i64) -> (res: Vec<T>)
    ensures
        res@ == if old(m)@.contains_key(id) {
            old(m)@[id]@
        } else {
            Seq::empty()
        },
        final(m)@ == old(m)@.remove(id),
{
    match m.remove(&id) {
        Some(v) => v,
        None => Vec::new(),
    }
}

proof fn lemma_taken_step<V>(cur: Map<i64, V>, orig: Map<i64, V>, claimed: Set<i64>, id: i64)
    requires
        taken_from(cur, orig, claimed),
    ensures
        taken_from(cur.remove(id), orig, claimed.insert(id)),
        cur.contains_key(id) <==> (orig.contains_key(id) && !claimed.contains(id)),
{
}

fn find_entity(entities: &Vec<AlbumEntity>, f: &FileName) -> (res: Option<usize>)
    ensures
        match res {
            Some(i) => i < entities@.len() && entity_of(entities@, f@) == Some(entities@[i as int]),
            None => entity_of(entities@, f@) is None,
        },
{
    let mut k = entities.len();
    proof {
        assert(entities@.take(entities@.len() as int) =~= entities@);
    }
    while k > 0
        invariant
            k <= entities@.len(),
            entity_of(entities@, f@) == entity_of(entities@.take(k as int), f@),
        decreases k,
    {
        proof {
            assert(entities@.take(k as int).drop_last() =~= entities@.take(k - 1));
            assert(entities@.take(k as int).last() == entities@[k - 1]);
        }
        if entities[k - 1].file_name.same_as(f) {
            return Some(k - 1);
        }
        k = k - 1;
    }
    None
}

proof fn lemma_assembled_push(
    res: Seq<AlbumReadModel>,
    a: AlbumReadModel,
    names: Seq<FileName>,
    entities: Seq<AlbumEntity>,
    parts: AlbumParts,
    i: int,
    e: AlbumEntity,
)
    requires
        0 <= i < names.len(),
        assembled_all(res, names, entities, parts, i),
        entity_of(entities, names[i]@) == Some(e),
        assembled_as(a, e, parts, claimed_ids(names.take(i), entities)),
    ensures
        assembled_all(res.push(a), names, entities, parts, i + 1),
{
    assert(res.push(a).drop_last() =~= res);
}

proof fn lemma_assembled_skip(
    res: Seq<AlbumReadModel>,
    names: Seq<FileName>,
    entities: Seq<AlbumEntity>,
    parts: AlbumParts,
    i: int,
)
    requires
        0 <= i < names.len(),
        assembled_all(res, names, entities, parts, i),
        entity_of(entities, names[i]@) is None,
    ensures
        assembled_all(res, names, entities, parts, i + 1),
{
}

/// The albums of the requested page names, in request order, each built
/// from its entity and the parts read for its id; names without an entity
/// are passed over, and an album requested twice gets its parts only the
/// first time.
pub fn assemble_albums(file_names: &Vec<FileName>, entities: &Vec<AlbumEntity>, parts: AlbumParts) -> (res: Vec<AlbumReadModel>)
    ensures
        assembled_all(res@, file_names@, entities@, parts, file_names@.len() as int),
{
    let ghost orig = parts;
    let mut artists = parts.artists;
    let mut genres = parts.genres;
    let mut descriptors = parts.descriptors;
    let mut languages = parts.languages;
    let mut credits = parts.credits;
    let mut duplication = parts.duplication;
    let mut res: Vec<AlbumReadModel> = Vec::new();
    for i in 0..file_names.len()
        invariant
            assembled_all(res@, file_names@, entities@, orig, i as int),
            taken_from(artists@, orig.artists@, claimed_ids(file_names@.take(i as int), entities@)),
            taken_from(genres@, orig.genres@, claimed_ids(file_names@.take(i as int), entities@)),
            taken_from(descriptors@, orig.descriptors@, claimed_ids(file_names@.take(i as int), entities@)),
            taken_from(languages@, orig.languages@, claimed_ids(file_names@.take(i as int), entities@)),
            taken_from(credits@, orig.credits@, claimed_ids(file_names@.take(i as int), entities@)),
            taken_from(duplication@, orig.duplication@, claimed_ids(file_names@.take(i as int), entities@)),
    {
        let ghost claimed = claimed_ids(file_names@.take(i as int), entities@);
        proof {
            assert(file_names@.take(i + 1).drop_last() =~= file_names@.take(i as int));
            assert(file_names@.take(i + 1).last() == file_names@[i as int]);
        }
        match find_entity(entities, &file_names[i]) {
            None => {
                proof {
                    lemma_assembled_skip(res@, file_names@, entities@, orig, i as int);
                }
            },
            Some(k) => {
                let e = &entities[k];
                let id = e.id;
                proof {
                    lemma_taken_step(artists@, orig.artists@, claimed, id);
                    lemma_taken_step(genres@, orig.genres@, claimed, id);
                    lemma_taken_step(descriptors@, orig.descriptors@, claimed, id);
                    lemma_taken_step(languages@, orig.languages@, claimed, id);
                    lemma_taken_step(credits@, orig.credits@, claimed, id);
                    lemma_taken_step(duplication@, orig.duplication@, claimed, id);
                }
                let album_artists = take_list(&mut artists, id);
                let (primary_genres, secondary_genres) = match genres.remove(&id) {
                    Some(g) => g,
                    None => (Vec::new(), Vec::new()),
                };
                let album_descriptors = take_list(&mut descriptors, id);
                let album_languages = take_list(&mut languages, id);
                let album_credits = take_list(&mut credits, id);
                let (duplicate_of, duplicates) = duplication_fields(duplication.remove(&id));
                let album = AlbumReadModel {
                    name: e.name.clone(),
                    file_name: e.file_name.clone(),
                    rating_count: e.rating_count,
                    artists: album_artists,
                    primary_genres,
                    secondary_genres,
                    descriptors: album_descriptors,
                    release_date: e.release_date,
                    languages: album_languages,
                    credits: album_credits,
                    duplicate_of,
                    duplicates,
                    cover_image_url: e.cover_image_url.clone(),
                };
                proof {
                    assert(assembled_as(album, *e, orig, claimed));
                    lemma_assembled_push(res@, album, file_names@, entities@, orig, i as int, *e);
                }
                res.push(album);
            },
        }
    }
    proof {
        assert(file_names@.take(file_names@.len() as int) =~= file_names@);
    }
    res
}

} // verus!
