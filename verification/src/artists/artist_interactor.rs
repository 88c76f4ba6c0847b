//! The artist interactor's decisions: which albums an overview needs.
use crate::albums::album_interactor::{name_views, push_new_name};
use crate::artists::artist_read_model::{ArtistReadModel, ArtistReadModelCredit};
use crate::file_name::FileName;
use vstd::prelude::*;

verus! {

/// The albums an artist's overview reads: its own, then those it is
/// credited on.
pub open spec fn overview_album_names(a: ArtistReadModel) -> Seq<Seq<char>> {
    name_views(a.album_file_names@) + a.credits@.map_values(|c: ArtistReadModelCredit| c.album_file_name@)
}

/// `x` is an album that the overview of some artist reads.
pub open spec fn needed_album(artists: Seq<ArtistReadModel>, x: Seq<char>) -> bool {
    exists|i: int| 0 <= i < artists.len() && #[trigger] overview_album_names(artists[i]).contains(x)
}

fn overview_album_file_names(a: &ArtistReadModel) -> (res: Vec<FileName>)
    ensures
        name_views(res@) == overview_album_names(*a),
{
    let mut res: Vec<FileName> = Vec::new();
    for j in 0..a.album_file_names.len()
        invariant
            name_views(res@) == name_views(a.album_file_names@.take(j as int)),
    {
        let ghost before = res@;
        let f = a.album_file_names[j].clone();
        res.push(f);
        proof {
            assert(name_views(res@) =~= name_views(before).push(f@));
            assert(a.album_file_names@.take(j + 1) =~= a.album_file_names@.take(j as int).push(
                a.album_file_names@[j as int],
            ));
        }
    }
    proof {
        assert(a.album_file_names@.take(a.album_file_names@.len() as int) =~= a.album_file_names@);
    }
    let ghost head = name_views(res@);
    for j in 0..a.credits.len()
        invariant
            name_views(res@) == head + a.credits@.take(j as int).map_values(
                |c: ArtistReadModelCredit| c.album_file_name@,
            ),
    {
        let ghost before = res@;
        let f = a.credits[j].album_file_name.clone();
        res.push(f);
        proof {
            assert(name_views(res@) =~= name_views(before).push(f@));
            assert(a.credits@.take(j + 1) =~= a.credits@.take(j as int).push(a.credits@[j as int]));
        }
    }
    proof {
        assert(a.credits@.take(a.credits@.len() as int) =~= a.credits@);
    }
    res
}

/// The albums that the overviews of `artists` read, each once.
pub fn albums_to_fetch(artists: &Vec<ArtistReadModel>) -> (res: Vec<FileName>)
    ensures
        name_views(res@).no_duplicates(),
        forall|x: Seq<char>| name_views(res@).contains(x) <==> needed_album(artists@, x),
{
    let mut res: Vec<FileName> = Vec::new();
    for i in 0..artists.len()
        invariant
            name_views(res@).no_duplicates(),
            forall|x: Seq<char>| #[trigger] name_views(res@).contains(x) <==> needed_album(artists@.take(i as int), x),
    {
        let a = &artists[i];
        let names = overview_album_file_names(a);
        let ghost start = res@;
        for j in 0..names.len()
            invariant
                name_views(res@).no_duplicates(),
                forall|x: Seq<char>| #[trigger] name_views(res@).contains(x) <==> (name_views(start).contains(x) || name_views(names@).take(j as int).contains(x)),
        {
            let ghost before = res@;
            push_new_name(&mut res, &names[j]);
            proof {
                let nv = name_views(names@);
                let t0 = nv.take(j as int);
                let t1 = nv.take(j + 1);
                assert(t1 =~= t0.push(nv[j as int]));
                assert forall|x: Seq<char>| #[trigger] name_views(res@).contains(x) <==> (name_views(start).contains(x) || t1.contains(x)) by {
                    assert(name_views(res@).contains(x) <==> (name_views(before).contains(x) || x == names@[j as int]@));
                    if t1.contains(x) && !t0.contains(x) {
                        let w = choose|w: int| 0 <= w < t1.len() && t1[w] == x;
                        if w < j {
                            assert(t0[w] == x);
                        }
                    }
                    if t0.contains(x) {
                        let w = choose|w: int| 0 <= w < t0.len() && t0[w] == x;
                        assert(t1[w] == x);
                    }
                    if x == names@[j as int]@ {
                        assert(t1[j as int] == x);
                    }
                }
            }
        }
        proof {
            let nv = name_views(names@);
            assert(nv.take(nv.len() as int) =~= nv);
            assert forall|x: Seq<char>| #[trigger] name_views(res@).contains(x) <==> needed_album(artists@.take(i + 1), x) by {
                if needed_album(artists@.take(i + 1), x) {
                    let w = choose|w: int| 0 <= w < artists@.take(i + 1).len() && #[trigger] overview_album_names(artists@.take(i + 1)[w]).contains(x);
                    if w < i {
                        assert(artists@.take(i as int)[w] == artists@.take(i + 1)[w]);
                        assert(needed_album(artists@.take(i as int), x));
                    } else {
                        assert(artists@.take(i + 1)[w] == *a);
                    }
                }
                if needed_album(artists@.take(i as int), x) {
                    let w = choose|w: int| 0 <= w < artists@.take(i as int).len() && #[trigger] overview_album_names(artists@.take(i as int)[w]).contains(x);
                    assert(artists@.take(i as int)[w] == artists@.take(i + 1)[w]);
                }
                if nv.contains(x) {
                    assert(artists@.take(i + 1)[i as int] == *a);
                }
            }
        }
    }
    proof {
        assert(artists@.take(artists@.len() as int) =~= artists@);
    }
    res
}

} // verus!
