//! Artists as read from the relational store: their own albums and their
//! credits grouped per artist from the rows of the queries.
use crate::artists::artist_read_model::{ArtistReadModel, ArtistReadModelCredit};
use crate::file_name::FileName;
use vstd::prelude::*;

verus! {

/// Artists read through the SQL connection `C`.
pub struct ArtistRepository<C> {
    pub sqlite_connection: C,
}

impl<C> ArtistRepository<C> {
    /// A repository over the connection `sqlite_connection`.
    pub fn new(sqlite_connection: C) -> (res: Self)
        ensures
            res.sqlite_connection == sqlite_connection,
    {
        Self { sqlite_connection }
    }
}

/// The page names of a list, in order.
pub open spec fn names(v: Seq<FileName>) -> Seq<Seq<char>> {
    v.map_values(|f: FileName| f@)
}

/// The albums of the rows `(album, artist)` whose artist is `artist`, in
/// row order.
pub open spec fn albums_of(rows: Seq<(FileName, FileName)>, artist: Seq<char>) -> Seq<Seq<char>>
    decreases rows.len(),
{
    if rows.len() == 0 {
        Seq::empty()
    } else if rows.last().1@ == artist {
        albums_of(rows.drop_last(), artist).push(rows.last().0@)
    } else {
        albums_of(rows.drop_last(), artist)
    }
}

/// Some row names `artist`.
pub open spec fn artist_in_rows(rows: Seq<(FileName, FileName)>, artist: Seq<char>) -> bool {
    exists|i: int| 0 <= i < rows.len() && #[trigger] rows[i].1@ == artist
}

/// Some key of `keys` is `x`.
pub open spec fn has_key(keys: Seq<FileName>, x: Seq<char>) -> bool {
    exists|k: int| 0 <= k < keys.len() && #[trigger] keys[k]@ == x
}

/// `keys` and `groups` hold one group per artist of the rows, with the
/// artist's albums in row order.
pub open spec fn is_album_grouping(
    rows: Seq<(FileName, FileName)>,
    keys: Seq<FileName>,
    groups: Seq<Vec<FileName>>,
) -> bool {
    &&& keys.len() == groups.len()
    &&& forall|a: int, b: int| 0 <= a < b < keys.len() ==> keys[a]@ != keys[b]@
    &&& forall|k: int| 0 <= k < keys.len() ==> artist_in_rows(rows, #[trigger] keys[k]@)
    &&& forall|k: int| 0 <= k < keys.len() ==> names(#[trigger] groups[k]@) == albums_of(rows, keys[k]@)
    &&& forall|i: int| 0 <= i < rows.len() ==> has_key(keys, #[trigger] rows[i].1@)
}

fn find_key(keys: &Vec<FileName>, x: &FileName) -> (res: Option<usize>)
    ensures
        match res {
            Some(k) => k < keys@.len() && keys@[k as int]@ == x@,
            None => !has_key(keys@, x@),
        },
{
    for k in 0..keys.len()
        invariant
            forall|j: int| 0 <= j < k ==> keys@[j]@ != x@,
    {
        if keys[k].same_as(x) {
            return Some(k);
        }
    }
    None
}

/// Groups the rows `(album, artist)` by artist: the artists in the order
/// of their first row, each with its albums in row order.
pub fn group_album_file_names(rows: &Vec<(FileName, FileName)>) -> (res: (Vec<FileName>, Vec<Vec<FileName>>))
    ensures
        is_album_grouping(rows@, res.0@, res.1@),
{
    let mut keys: Vec<FileName> = Vec::new();
    let mut groups: Vec<Vec<FileName>> = Vec::new();
    for i in 0..rows.len()
        invariant
            is_album_grouping(rows@.take(i as int), keys@, groups@),
    {
        let ghost r0 = rows@.take(i as int);
        let ghost r1 = rows@.take(i + 1);
        let ghost row = rows@[i as int];
        proof {
            assert(r1.drop_last() =~= r0);
            assert(r1.last() == row);
            assert forall|x: Seq<char>| true implies albums_of(r1, x) == if row.1@ == x {
                albums_of(r0, x).push(row.0@)
            } else {
                albums_of(r0, x)
            } by {}
        }
        let ghost old_keys = keys@;
        let ghost old_groups = groups@;
        match find_key(&keys, &rows[i].1) {
            Some(k) => {
                let album = rows[i].0.clone();
                groups[k].push(album);
                proof {
                    assert(groups@[k as int]@ =~= old_groups[k as int]@.push(album));
                    assert(names(groups@[k as int]@) =~= names(old_groups[k as int]@).push(album@));
                    assert forall|j: int| 0 <= j < keys@.len() implies names(#[trigger] groups@[j]@)
                        == albums_of(r1, keys@[j]@) by {
                        if j != k {
                            assert(groups@[j] == old_groups[j]);
                            assert(keys@[j]@ != keys@[k as int]@);
                        }
                    }
                    assert forall|j: int| 0 <= j < keys@.len() implies artist_in_rows(r1, #[trigger] keys@[j]@) by {
                        assert(artist_in_rows(r0, keys@[j]@));
                        let w = choose|w: int| 0 <= w < r0.len() && #[trigger] r0[w].1@ == keys@[j]@;
                        assert(r1[w] == r0[w]);
                    }
                    assert forall|w: int| 0 <= w < r1.len() implies has_key(keys@, #[trigger] r1[w].1@) by {
                        if w < r0.len() {
                            assert(r1[w] == r0[w]);
                        }
                    }
                }
            },
            None => {
                let artist = rows[i].1.clone();
                let album = rows[i].0.clone();
                keys.push(artist);
                let mut group: Vec<FileName> = Vec::new();
                group.push(album);
                groups.push(group);
                proof {
                    assert(keys@ =~= old_keys.push(artist));
                    assert(groups@ =~= old_groups.push(group));
                    assert(albums_of(r0, artist@) =~= Seq::<Seq<char>>::empty()) by {
                        lemma_albums_of_absent(r0, artist@);
                    }
                    assert(names(group@) =~= seq![album@]);
                    assert forall|j: int| 0 <= j < keys@.len() implies names(#[trigger] groups@[j]@)
                        == albums_of(r1, keys@[j]@) by {
                        if j < old_keys.len() {
                            assert(groups@[j] == old_groups[j]);
                            assert(keys@[j] == old_keys[j]);
                            assert(old_keys[j]@ != artist@);
                        }
                    }
                    assert forall|a: int, b: int| 0 <= a < b < keys@.len() implies keys@[a]@ != keys@[b]@ by {
                        if b < old_keys.len() {
                            assert(keys@[a] == old_keys[a]);
                            assert(keys@[b] == old_keys[b]);
                        } else {
                            assert(keys@[a] == old_keys[a]);
                            assert(old_keys[a]@ != artist@);
                        }
                    }
                    assert forall|j: int| 0 <= j < keys@.len() implies artist_in_rows(r1, #[trigger] keys@[j]@) by {
                        if j < old_keys.len() {
                            assert(keys@[j] == old_keys[j]);
                            assert(artist_in_rows(r0, old_keys[j]@));
                            let w = choose|w: int| 0 <= w < r0.len() && #[trigger] r0[w].1@ == old_keys[j]@;
                            assert(r1[w] == r0[w]);
                        } else {
                            assert(r1[i as int].1@ == artist@);
                        }
                    }
                    assert forall|w: int| 0 <= w < r1.len() implies has_key(keys@, #[trigger] r1[w].1@) by {
                        if w < r0.len() {
                            assert(r1[w] == r0[w]);
                            assert(has_key(old_keys, r0[w].1@));
                            let k = choose|k: int| 0 <= k < old_keys.len() && #[trigger] old_keys[k]@ == r0[w].1@;
                            assert(keys@[k] == old_keys[k]);
                        } else {
                            assert(keys@[old_keys.len() as int]@ == r1[w].1@);
                        }
                    }
                }
            },
        }
    }
    proof {
        assert(rows@.take(rows@.len() as int) =~= rows@);
    }
    (keys, groups)
}

proof fn lemma_albums_of_absent(rows: Seq<(FileName, FileName)>, artist: Seq<char>)
    requires
        forall|i: int| 0 <= i < rows.len() ==> #[trigger] rows[i].1@ != artist,
    ensures
        albums_of(rows, artist) == Seq::<Seq<char>>::empty(),
    decreases rows.len(),
{
    if rows.len() > 0 {
        assert(rows[rows.len() - 1].1@ != artist);
        assert forall|i: int| 0 <= i < rows.drop_last().len() implies #[trigger] rows.drop_last()[i].1@ != artist by {
            assert(rows.drop_last()[i] == rows[i]);
        }
        lemma_albums_of_absent(rows.drop_last(), artist);
    }
}

/// A row of the credits query: an artist, an album it is credited on that
/// is not its own, and one role of the credit.
pub struct ArtistCreditRow {
    pub artist_file_name: FileName,
    pub album_file_name: FileName,
    pub role: String,
}

/// A credit by the page name of its album and its roles.
pub open spec fn artist_credit_view(c: ArtistReadModelCredit) -> (Seq<char>, Seq<Seq<char>>) {
    (c.album_file_name@, c.roles@.map_values(|r: String| r@))
}

/// The views of a list of credits.
pub open spec fn artist_credits_view(v: Seq<ArtistReadModelCredit>) -> Seq<(Seq<char>, Seq<Seq<char>>)> {
    v.map_values(|c: ArtistReadModelCredit| artist_credit_view(c))
}

/// The first credit of `list` on album `f`.
pub open spec fn album_credit_index(list: Seq<(Seq<char>, Seq<Seq<char>>)>, f: Seq<char>) -> Option<int>
    decreases list.len(),
{
    if list.len() == 0 {
        None
    } else {
        match album_credit_index(list.drop_last(), f) {
            Some(k) => Some(k),
            None => if list.last().0 == f {
                Some(list.len() - 1)
            } else {
                None
            },
        }
    }
}

/// The credits after one more row: the role is added to the credit on the
/// row's album, or a credit on that album with that one role is added.
pub open spec fn add_album_role(list: Seq<(Seq<char>, Seq<Seq<char>>)>, r: ArtistCreditRow) -> Seq<(Seq<char>, Seq<Seq<char>>)> {
    match album_credit_index(list, r.album_file_name@) {
        Some(k) => list.update(k, (list[k].0, list[k].1.push(r.role@))),
        None => list.push((r.album_file_name@, seq![r.role@])),
    }
}

/// The credits of each artist after the rows.
pub open spec fn artist_credit_state(rows: Seq<ArtistCreditRow>) -> Map<Seq<char>, Seq<(Seq<char>, Seq<Seq<char>>)>>
    decreases rows.len(),
{
    if rows.len() == 0 {
        Map::empty()
    } else {
        let s = artist_credit_state(rows.drop_last());
        let r = rows.last();
        let list = if s.contains_key(r.artist_file_name@) {
            s[r.artist_file_name@]
        } else {
            Seq::empty()
        };
        s.insert(r.artist_file_name@, add_album_role(list, r))
    }
}

/// `keys` and `groups` hold the credits of each artist of `state`, the
/// artists being distinct.
pub open spec fn holds_credit_state(
    keys: Seq<FileName>,
    groups: Seq<Vec<ArtistReadModelCredit>>,
    state: Map<Seq<char>, Seq<(Seq<char>, Seq<Seq<char>>)>>,
) -> bool {
    &&& keys.len() == groups.len()
    &&& forall|a: int, b: int| 0 <= a < b < keys.len() ==> keys[a]@ != keys[b]@
    &&& forall|k: int| 0 <= k < keys.len() ==> state.contains_key(#[trigger] keys[k]@)
        && artist_credits_view(groups[k]@) == state[keys[k]@]
    &&& forall|x: Seq<char>| #[trigger] state.contains_key(x) ==> has_key(keys, x)
}

fn find_album_credit(list: &Vec<ArtistReadModelCredit>, f: &FileName) -> (res: Option<usize>)
    ensures
        match res {
            Some(k) => k < list@.len() && album_credit_index(artist_credits_view(list@), f@) == Some(k as int),
            None => album_credit_index(artist_credits_view(list@), f@) is None,
        },
{
    let ghost lv = artist_credits_view(list@);
    for k in 0..list.len()
        invariant
            lv == artist_credits_view(list@),
            album_credit_index(lv.take(k as int), f@) is None,
    {
        proof {
            assert(lv.take(k + 1).drop_last() =~= lv.take(k as int));
        }
        if list[k].album_file_name.same_as(f) {
            proof {
                lemma_album_credit_index_prefix(lv, k + 1, f@);
            }
            return Some(k);
        }
    }
    proof {
        assert(lv.take(list@.len() as int) =~= lv);
    }
    None
}

proof fn lemma_album_credit_index_prefix(list: Seq<(Seq<char>, Seq<Seq<char>>)>, n: int, f: Seq<char>)
    requires
        0 <= n <= list.len(),
        album_credit_index(list.take(n), f) is Some,
    ensures
        album_credit_index(list, f) == album_credit_index(list.take(n), f),
    decreases list.len() - n,
{
    if n < list.len() {
        assert(list.take(n + 1).drop_last() =~= list.take(n));
        lemma_album_credit_index_prefix(list, n + 1, f);
    } else {
        assert(list.take(n) =~= list);
    }
}

fn add_role_to(credits: &mut Vec<ArtistReadModelCredit>, row: &ArtistCreditRow)
    ensures
        artist_credits_view(final(credits)@) == add_album_role(artist_credits_view(old(credits)@), *row),
{
    let ghost list = artist_credits_view(credits@);
    match find_album_credit(credits, &row.album_file_name) {
        Some(k) => {
            let ghost old_credits = credits@;
            let role = row.role.clone();
            credits[k].roles.push(role);
            proof {
                assert(credits@[k as int].roles@.map_values(|r: String| r@) =~= old_credits[k as int].roles@.map_values(
                    |r: String| r@,
                ).push(role@));
                assert(artist_credits_view(credits@) =~= add_album_role(list, *row));
            }
        },
        None => {
            let mut roles: Vec<String> = Vec::new();
            roles.push(row.role.clone());
            let credit = ArtistReadModelCredit { album_file_name: row.album_file_name.clone(), roles };
            credits.push(credit);
            proof {
                assert(credit.roles@.map_values(|r: String| r@) =~= seq![row.role@]);
                assert(artist_credits_view(credits@) =~= add_album_role(list, *row));
            }
        },
    }
}

/// Gathers each artist's credits from the rows of the credits query: the
/// artists in the order of their first row, each with one credit per
/// album in the order of the album's first row, its roles in row order.
pub fn group_credits(rows: &Vec<ArtistCreditRow>) -> (res: (Vec<FileName>, Vec<Vec<ArtistReadModelCredit>>))
    ensures
        holds_credit_state(res.0@, res.1@, artist_credit_state(rows@)),
{
    let mut keys: Vec<FileName> = Vec::new();
    let mut groups: Vec<Vec<ArtistReadModelCredit>> = Vec::new();
    proof {
        assert(rows@.take(0) =~= Seq::<ArtistCreditRow>::empty());
        assert(artist_credit_state(rows@.take(0)) =~= Map::<Seq<char>, Seq<(Seq<char>, Seq<Seq<char>>)>>::empty());
    }
    for i in 0..rows.len()
        invariant
            holds_credit_state(keys@, groups@, artist_credit_state(rows@.take(i as int))),
    {
        let row = &rows[i];
        let ghost s = artist_credit_state(rows@.take(i as int));
        let ghost s1 = artist_credit_state(rows@.take(i + 1));
        proof {
            assert(rows@.take(i + 1).drop_last() =~= rows@.take(i as int));
            assert(rows@.take(i + 1).last() == *row);
        }
        let ghost old_keys = keys@;
        let ghost old_groups = groups@;
        match find_key(&keys, &row.artist_file_name) {
            Some(k) => {
                add_role_to(&mut groups[k], row);
                proof {
                    assert forall|j: int| 0 <= j < keys@.len() implies s1.contains_key(#[trigger] keys@[j]@)
                        && artist_credits_view(groups@[j]@) == s1[keys@[j]@] by {
                        if j != k {
                            assert(groups@[j] == old_groups[j]);
                            assert(keys@[j]@ != keys@[k as int]@);
                        }
                    }
                    assert forall|x: Seq<char>| #[trigger] s1.contains_key(x) implies has_key(keys@, x) by {
                        if x != row.artist_file_name@ {
                            assert(s.contains_key(x));
                        }
                    }
                }
            },
            None => {
                proof {
                    assert(!s.contains_key(row.artist_file_name@));
                }
                let mut credits: Vec<ArtistReadModelCredit> = Vec::new();
                proof {
                    assert(artist_credits_view(credits@) =~= Seq::<(Seq<char>, Seq<Seq<char>>)>::empty());
                }
                add_role_to(&mut credits, row);
                let artist = row.artist_file_name.clone();
                keys.push(artist);
                groups.push(credits);
                proof {
                    assert(keys@ =~= old_keys.push(artist));
                    assert(groups@ =~= old_groups.push(credits));
                    assert forall|a: int, b: int| 0 <= a < b < keys@.len() implies keys@[a]@ != keys@[b]@ by {
                        assert(keys@[a] == old_keys[a]);
                        if b < old_keys.len() {
                            assert(keys@[b] == old_keys[b]);
                        } else {
                            assert(s.contains_key(old_keys[a]@));
                        }
                    }
                    assert forall|j: int| 0 <= j < keys@.len() implies s1.contains_key(#[trigger] keys@[j]@)
                        && artist_credits_view(groups@[j]@) == s1[keys@[j]@] by {
                        if j < old_keys.len() {
                            assert(groups@[j] == old_groups[j]);
                            assert(keys@[j] == old_keys[j]);
                            assert(s.contains_key(old_keys[j]@));
                            assert(old_keys[j]@ != artist@);
                        }
                    }
                    assert forall|x: Seq<char>| #[trigger] s1.contains_key(x) implies has_key(keys@, x) by {
                        if x != row.artist_file_name@ {
                            assert(s.contains_key(x));
                            let w = choose|w: int| 0 <= w < old_keys.len() && #[trigger] old_keys[w]@ == x;
                            assert(keys@[w] == old_keys[w]);
                        } else {
                            assert(keys@[old_keys.len() as int]@ == x);
                        }
                    }
                }
            },
        }
    }
    proof {
        assert(rows@.take(rows@.len() as int) =~= rows@);
    }
    (keys, groups)
}

/// The albums grouped under artist `f`, none if it has no group.
pub open spec fn albums_under(keys: Seq<FileName>, groups: Seq<Vec<FileName>>, f: Seq<char>) -> Seq<Seq<char>> {
    if has_key(keys, f) {
        names(groups[choose|k: int| 0 <= k < keys.len() && #[trigger] keys[k]@ == f]@)
    } else {
        Seq::empty()
    }
}

/// The credits grouped under artist `f`, none if it has no group.
pub open spec fn credits_under(
    keys: Seq<FileName>,
    groups: Seq<Vec<ArtistReadModelCredit>>,
    f: Seq<char>,
) -> Seq<(Seq<char>, Seq<Seq<char>>)> {
    if has_key(keys, f) {
        artist_credits_view(groups[choose|k: int| 0 <= k < keys.len() && #[trigger] keys[k]@ == f]@)
    } else {
        Seq::empty()
    }
}

fn clone_names(v: &Vec<FileName>) -> (res: Vec<FileName>)
    ensures
        res@ == v@,
{
    let mut res: Vec<FileName> = Vec::new();
    for i in 0..v.len()
        invariant
            res@ == v@.take(i as int),
    {
        res.push(v[i].clone());
        proof {
            assert(v@.take(i + 1) =~= v@.take(i as int).push(v@[i as int]));
        }
    }
    proof {
        assert(v@.take(v@.len() as int) =~= v@);
    }
    res
}

fn clone_credits(v: &Vec<ArtistReadModelCredit>) -> (res: Vec<ArtistReadModelCredit>)
    ensures
        artist_credits_view(res@) == artist_credits_view(v@),
{
    let mut res: Vec<ArtistReadModelCredit> = Vec::new();
    for i in 0..v.len()
        invariant
            artist_credits_view(res@) == artist_credits_view(v@.take(i as int)),
    {
        let mut roles: Vec<String> = Vec::new();
        let src = &v[i].roles;
        for j in 0..src.len()
            invariant
                *src == v@[i as int].roles,
                roles@ == v@[i as int].roles@.take(j as int),
        {
            roles.push(src[j].clone());
            proof {
                assert(v@[i as int].roles@.take(j + 1) =~= v@[i as int].roles@.take(j as int).push(
                    v@[i as int].roles@[j as int],
                ));
            }
        }
        proof {
            assert(v@[i as int].roles@.take(v@[i as int].roles@.len() as int) =~= v@[i as int].roles@);
        }
        let c = ArtistReadModelCredit { album_file_name: v[i].album_file_name.clone(), roles };
        let ghost before = res@;
        res.push(c);
        proof {
            assert(res@ =~= before.push(c));
            assert(v@.take(i + 1) =~= v@.take(i as int).push(v@[i as int]));
            assert(artist_credits_view(res@) =~= artist_credits_view(before).push(artist_credit_view(c)));
        }
    }
    proof {
        assert(v@.take(v@.len() as int) =~= v@);
    }
    res
}

/// The read models of the artists of the rows `(page name, name)`, in row
/// order, each with the albums and the credits grouped under it.
pub fn assemble_artists(
    rows: &Vec<(FileName, String)>,
    album_keys: &Vec<FileName>,
    album_groups: &Vec<Vec<FileName>>,
    credit_keys: &Vec<FileName>,
    credit_groups: &Vec<Vec<ArtistReadModelCredit>>,
) -> (res: Vec<ArtistReadModel>)
    requires
        album_keys@.len() == album_groups@.len(),
        credit_keys@.len() == credit_groups@.len(),
        forall|a: int, b: int| 0 <= a < b < album_keys@.len() ==> album_keys@[a]@ != album_keys@[b]@,
        forall|a: int, b: int| 0 <= a < b < credit_keys@.len() ==> credit_keys@[a]@ != credit_keys@[b]@,
    ensures
        res@.len() == rows@.len(),
        forall|i: int| 0 <= i < rows@.len() ==> {
            &&& (#[trigger] res@[i]).file_name@ == rows@[i].0@
            &&& res@[i].name@ == rows@[i].1@
            &&& names(res@[i].album_file_names@) == albums_under(album_keys@, album_groups@, rows@[i].0@)
            &&& artist_credits_view(res@[i].credits@) == credits_under(credit_keys@, credit_groups@, rows@[i].0@)
        },
{
    let mut res: Vec<ArtistReadModel> = Vec::new();
    for i in 0..rows.len()
        invariant
            album_keys@.len() == album_groups@.len(),
            credit_keys@.len() == credit_groups@.len(),
            forall|a: int, b: int| 0 <= a < b < album_keys@.len() ==> album_keys@[a]@ != album_keys@[b]@,
            forall|a: int, b: int| 0 <= a < b < credit_keys@.len() ==> credit_keys@[a]@ != credit_keys@[b]@,
            res@.len() == i,
            forall|j: int| 0 <= j < i ==> {
                &&& (#[trigger] res@[j]).file_name@ == rows@[j].0@
                &&& res@[j].name@ == rows@[j].1@
                &&& names(res@[j].album_file_names@) == albums_under(album_keys@, album_groups@, rows@[j].0@)
                &&& artist_credits_view(res@[j].credits@) == credits_under(credit_keys@, credit_groups@, rows@[j].0@)
            },
    {
        let f = &rows[i].0;
        let albums = match find_key(album_keys, f) {
            Some(k) => {
                proof {
                    let w = choose|w: int| 0 <= w < album_keys@.len() && #[trigger] album_keys@[w]@ == f@;
                    if w != k {
                        if w < k {
                            assert(album_keys@[w]@ != album_keys@[k as int]@);
                        } else {
                            assert(album_keys@[k as int]@ != album_keys@[w]@);
                        }
                    }
                }
                clone_names(&album_groups[k])
            },
            None => Vec::new(),
        };
        let credits = match find_key(credit_keys, f) {
            Some(k) => {
                proof {
                    let w = choose|w: int| 0 <= w < credit_keys@.len() && #[trigger] credit_keys@[w]@ == f@;
                    if w != k {
                        if w < k {
                            assert(credit_keys@[w]@ != credit_keys@[k as int]@);
                        } else {
                            assert(credit_keys@[k as int]@ != credit_keys@[w]@);
                        }
                    }
                }
                clone_credits(&credit_groups[k])
            },
            None => Vec::new(),
        };
        proof {
            assert(names(Seq::<FileName>::empty()) =~= Seq::<Seq<char>>::empty());
            assert(artist_credits_view(Seq::<ArtistReadModelCredit>::empty()) =~= Seq::<(Seq<char>, Seq<Seq<char>>)>::empty());
        }
        let artist = ArtistReadModel {
            name: rows[i].1.clone(),
            file_name: f.clone(),
            album_file_names: albums,
            credits,
        };
        res.push(artist);
    }
    res
}

} // verus!
