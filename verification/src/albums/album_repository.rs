//! Aggregates over the stored albums, and lookups that must find every
//! album asked for.
use crate::albums::album_read_model::AlbumReadModel;
use crate::file_name::FileName;
use crate::ranking::Ranked;
use crate::text::{join, join_strings, push_str};
use vstd::prelude::*;

verus! {

/// How many albums have a genre as a primary and as a secondary genre.
pub struct GenreAggregate {
    pub name: String,
    pub primary_genre_count: u32,
    pub secondary_genre_count: u32,
}

/// A descriptor, language or year and how many albums have it.
pub struct ItemAndCount {
    pub name: String,
    pub count: u32,
}

impl Ranked for GenreAggregate {
    /// Genres rank by the number of albums that have them either way.
    open spec fn rank(&self) -> nat {
        (self.primary_genre_count + self.secondary_genre_count) as nat
    }

    fn rank_exec(&self) -> (r: u64) {
        self.primary_genre_count as u64 + self.secondary_genre_count as u64
    }
}

impl Ranked for ItemAndCount {
    open spec fn rank(&self) -> nat {
        self.count as nat
    }

    fn rank_exec(&self) -> (r: u64) {
        self.count as u64
    }
}

/// Whether some album has page name `f`.
pub open spec fn has_album(albums: Seq<AlbumReadModel>, f: Seq<char>) -> bool {
    exists|i: int| 0 <= i < albums.len() && #[trigger] albums[i].file_name@ == f
}

/// The names of `names` that no album has, in order, repeats kept.
pub open spec fn missing_names(names: Seq<FileName>, albums: Seq<AlbumReadModel>) -> Seq<Seq<char>>
    decreases names.len(),
{
    if names.len() == 0 {
        Seq::empty()
    } else if has_album(albums, names.last()@) {
        missing_names(names.drop_last(), albums)
    } else {
        missing_names(names.drop_last(), albums).push(names.last()@)
    }
}

/// Albums that were asked for and not found.
pub struct AlbumsNotFound {
    pub missing: Vec<FileName>,
}

/// What precedes the missing names in the message of [`AlbumsNotFound`].
pub const ALBUMS_NOT_FOUND_PREFIX: &'static str = "Albums not found: ";

impl AlbumsNotFound {
    /// `Albums not found: ` and the missing names separated by `, `.
    pub fn message(&self) -> (res: String)
        ensures
            res@ == ALBUMS_NOT_FOUND_PREFIX@ + join(
                self.missing@.map_values(|f: FileName| f@),
                ", "@,
            ),
    {
        let mut names: Vec<String> = Vec::new();
        for i in 0..self.missing.len()
            invariant
                names@.map_values(|s: String| s@) == self.missing@.take(i as int).map_values(
                    |f: FileName| f@,
                ),
        {
            let ghost before = names@;
            let n = self.missing[i].to_string();
            names.push(n);
            proof {
                assert(names@ =~= before.push(n));
                assert(self.missing@.take(i + 1) =~= self.missing@.take(i as int).push(self.missing@[i as int]));
                assert(names@.map_values(|s: String| s@) =~= before.map_values(|s: String| s@).push(n@));
                assert(self.missing@.take(i + 1).map_values(|f: FileName| f@) =~= self.missing@.take(
                    i as int,
                ).map_values(|f: FileName| f@).push(self.missing@[i as int]@));
                assert(names@.map_values(|s: String| s@) =~= self.missing@.take(i + 1).map_values(
                    |f: FileName| f@,
                ));
            }
        }
        proof {
            assert(self.missing@.take(self.missing@.len() as int) =~= self.missing@);
        }
        let joined = join_strings(&names, ", ");
        let mut res = String::new();
        push_str(&mut res, ALBUMS_NOT_FOUND_PREFIX);
        push_str(&mut res, joined.as_str());
        res
    }
}

fn has_album_exec(albums: &Vec<AlbumReadModel>, f: &FileName) -> (res: bool)
    ensures
        res == has_album(albums@, f@),
{
    for i in 0..albums.len()
        invariant
            forall|k: int| 0 <= k < i ==> albums@[k].file_name@ != f@,
    {
        if albums[i].file_name.same_as(f) {
            return true;
        }
    }
    false
}

/// The albums found for `file_names`, or, where some name has no album,
/// those names in the order asked.
pub fn check_all_found(file_names: &Vec<FileName>, albums: Vec<AlbumReadModel>) -> (res: Result<
    Vec<AlbumReadModel>,
    AlbumsNotFound,
>)
    ensures
        match res {
            Ok(found) => found@ == albums@ && missing_names(file_names@, albums@).len() == 0,
            Err(e) => e.missing@.map_values(|f: FileName| f@) == missing_names(file_names@, albums@)
                && e.missing@.len() > 0,
        },
{
    let mut missing: Vec<FileName> = Vec::new();
    for i in 0..file_names.len()
        invariant
            missing@.map_values(|f: FileName| f@) == missing_names(
                file_names@.take(i as int),
                albums@,
            ),
    {
        proof {
            assert(file_names@.take(i + 1).drop_last() =~= file_names@.take(i as int));
        }
        if !has_album_exec(&albums, &file_names[i]) {
            let ghost before = missing@;
            let f = file_names[i].clone();
            missing.push(f);
            proof {
                assert(missing@ =~= before.push(f));
                assert(missing@.map_values(|f: FileName| f@) =~= before.map_values(|f: FileName| f@).push(
                    f@,
                ));
            }
        }
    }
    proof {
        assert(file_names@.take(file_names@.len() as int) =~= file_names@);
    }
    if missing.len() > 0 {
        Err(AlbumsNotFound { missing })
    } else {
        Ok(albums)
    }
}

} // verus!
