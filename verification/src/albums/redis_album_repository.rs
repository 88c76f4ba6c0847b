//! The album read models as kept in Redis: their keys, the search query
//! string, and the genre, descriptor and language aggregates built from
//! the index's grouped rows.
use crate::albums::album_read_model_repository::AlbumSearchQuery;
use crate::albums::album_repository::{GenreAggregate, ItemAndCount};
use crate::albums::redis_album_search_index::{
    contains_text, file_names_view, get_min_num_query, get_num_range_query, get_tag_query,
    lemma_contains_text_concat, lemma_tag_query_is_clause, spec_min_num_query,
    spec_num_range_query, spec_tag_query, strings_view, tag_clause_text,
};
use crate::file_name::{FileName, file_names_to_strings};
use crate::parse::{parse_u32, spec_parse_u32};
use crate::ranking::{Ranked, lemma_same_multiset_contains, sort_by_rank_desc, sorted_by_rank_desc};
use crate::text::{push_str, spec_trim, trim};
use vstd::prelude::*;

verus! {

broadcast use vstd::seq_lib::group_to_multiset_ensures;

/// The prefix of the keys of album documents.
pub const NAMESPACE: &'static str = "album";

/// The name of the album search index.
pub const INDEX_NAME: &'static str = "album_idx";

/// The key of the document of an album: `album:` and its page name.
pub fn album_key(file_name: &FileName) -> (res: String)
    ensures
        res@ == NAMESPACE@ + ":"@ + file_name@,
{
    let mut s = String::new();
    push_str(&mut s, NAMESPACE);
    push_str(&mut s, ":");
    push_str(&mut s, file_name.0.as_str());
    proof {
        assert(s@ =~= NAMESPACE@ + ":"@ + file_name@);
    }
    s
}

/// The clauses of a read-model search, in the order in which they are
/// written, each followed by one space.
pub open spec fn spec_read_model_ft_clauses(q: AlbumSearchQuery) -> Seq<char> {
    spec_min_num_query("@primary_genre_count"@, q.min_primary_genre_count) + spec_min_num_query(
        "@secondary_genre_count"@,
        q.min_secondary_genre_count,
    ) + spec_min_num_query("@descriptor_count"@, q.min_descriptor_count) + spec_num_range_query(
        "@release_year"@,
        q.min_release_year,
        q.max_release_year,
    ) + spec_tag_query("@artist_file_name"@, strings_view(q.include_artists@)) + spec_tag_query(
        "@primary_genre"@,
        strings_view(q.include_primary_genres@),
    ) + spec_tag_query("@secondary_genre"@, strings_view(q.include_secondary_genres@))
        + spec_tag_query("@language"@, strings_view(q.include_languages@)) + spec_tag_query(
        "@descriptor"@,
        strings_view(q.include_descriptors@),
    ) + spec_tag_query("-@artist_file_name"@, strings_view(q.exclude_artists@)) + spec_tag_query(
        "-@file_name"@,
        file_names_view(q.exclude_file_names@),
    ) + spec_tag_query("-@primary_genre"@, strings_view(q.exclude_primary_genres@))
        + spec_tag_query("-@secondary_genre"@, strings_view(q.exclude_secondary_genres@))
        + spec_tag_query("-@language"@, strings_view(q.exclude_languages@))
}

/// A read-model search with included artists: only albums by one of them match. The query holds the clause
/// `@artist_file_name:{...}` over the listed values, escaped.
pub proof fn lemma_read_model_query_include_artists(q: AlbumSearchQuery)
    requires
        q.include_artists@.len() > 0,
    ensures
        contains_text(spec_read_model_ft_clauses(q), tag_clause_text(seq!['@', 'a', 'r', 't', 'i', 's', 't', '_', 'f', 'i', 'l', 'e', '_', 'n', 'a', 'm', 'e'], strings_view(q.include_artists@))),
{
    lemma_contains_text_concat();
    reveal_strlit("@artist_file_name");
    assert("@artist_file_name"@ =~= seq!['@', 'a', 'r', 't', 'i', 's', 't', '_', 'f', 'i', 'l', 'e', '_', 'n', 'a', 'm', 'e']);
    lemma_tag_query_is_clause("@artist_file_name"@, strings_view(q.include_artists@));
}

/// A read-model search with included primary genres: only albums with one of them match. The query holds the clause
/// `@primary_genre:{...}` over the listed values, escaped.
pub proof fn lemma_read_model_query_include_primary_genres(q: AlbumSearchQuery)
    requires
        q.include_primary_genres@.len() > 0,
    ensures
        contains_text(spec_read_model_ft_clauses(q), tag_clause_text(seq!['@', 'p', 'r', 'i', 'm', 'a', 'r', 'y', '_', 'g', 'e', 'n', 'r', 'e'], strings_view(q.include_primary_genres@))),
{
    lemma_contains_text_concat();
    reveal_strlit("@primary_genre");
    assert("@primary_genre"@ =~= seq!['@', 'p', 'r', 'i', 'm', 'a', 'r', 'y', '_', 'g', 'e', 'n', 'r', 'e']);
    lemma_tag_query_is_clause("@primary_genre"@, strings_view(q.include_primary_genres@));
}

/// A read-model search with included secondary genres: only albums with one of them match. The query holds the clause
/// `@secondary_genre:{...}` over the listed values, escaped.
pub proof fn lemma_read_model_query_include_secondary_genres(q: AlbumSearchQuery)
    requires
        q.include_secondary_genres@.len() > 0,
    ensures
        contains_text(spec_read_model_ft_clauses(q), tag_clause_text(seq!['@', 's', 'e', 'c', 'o', 'n', 'd', 'a', 'r', 'y', '_', 'g', 'e', 'n', 'r', 'e'], strings_view(q.include_secondary_genres@))),
{
    lemma_contains_text_concat();
    reveal_strlit("@secondary_genre");
    assert("@secondary_genre"@ =~= seq!['@', 's', 'e', 'c', 'o', 'n', 'd', 'a', 'r', 'y', '_', 'g', 'e', 'n', 'r', 'e']);
    lemma_tag_query_is_clause("@secondary_genre"@, strings_view(q.include_secondary_genres@));
}

/// A read-model search with included languages: only albums in one of them match. The query holds the clause
/// `@language:{...}` over the listed values, escaped.
pub proof fn lemma_read_model_query_include_languages(q: AlbumSearchQuery)
    requires
        q.include_languages@.len() > 0,
    ensures
        contains_text(spec_read_model_ft_clauses(q), tag_clause_text(seq!['@', 'l', 'a', 'n', 'g', 'u', 'a', 'g', 'e'], strings_view(q.include_languages@))),
{
    lemma_contains_text_concat();
    reveal_strlit("@language");
    assert("@language"@ =~= seq!['@', 'l', 'a', 'n', 'g', 'u', 'a', 'g', 'e']);
    lemma_tag_query_is_clause("@language"@, strings_view(q.include_languages@));
}

/// A read-model search with included descriptors: only albums with one of them match. The query holds the clause
/// `@descriptor:{...}` over the listed values, escaped.
pub proof fn lemma_read_model_query_include_descriptors(q: AlbumSearchQuery)
    requires
        q.include_descriptors@.len() > 0,
    ensures
        contains_text(spec_read_model_ft_clauses(q), tag_clause_text(seq!['@', 'd', 'e', 's', 'c', 'r', 'i', 'p', 't', 'o', 'r'], strings_view(q.include_descriptors@))),
{
    lemma_contains_text_concat();
    reveal_strlit("@descriptor");
    assert("@descriptor"@ =~= seq!['@', 'd', 'e', 's', 'c', 'r', 'i', 'p', 't', 'o', 'r']);
    lemma_tag_query_is_clause("@descriptor"@, strings_view(q.include_descriptors@));
}

/// A read-model search with excluded artists: the clause is negated, so an excluded artist's albums never match. The query holds the clause
/// `-@artist_file_name:{...}` over the listed values, escaped.
pub proof fn lemma_read_model_query_exclude_artists(q: AlbumSearchQuery)
    requires
        q.exclude_artists@.len() > 0,
    ensures
        contains_text(spec_read_model_ft_clauses(q), tag_clause_text(seq!['-', '@', 'a', 'r', 't', 'i', 's', 't', '_', 'f', 'i', 'l', 'e', '_', 'n', 'a', 'm', 'e'], strings_view(q.exclude_artists@))),
{
    lemma_contains_text_concat();
    reveal_strlit("-@artist_file_name");
    assert("-@artist_file_name"@ =~= seq!['-', '@', 'a', 'r', 't', 'i', 's', 't', '_', 'f', 'i', 'l', 'e', '_', 'n', 'a', 'm', 'e']);
    lemma_tag_query_is_clause("-@artist_file_name"@, strings_view(q.exclude_artists@));
}

/// A read-model search with excluded pages: the clause is negated, so those albums never match. The query holds the clause
/// `-@file_name:{...}` over the listed values, escaped.
pub proof fn lemma_read_model_query_exclude_file_names(q: AlbumSearchQuery)
    requires
        q.exclude_file_names@.len() > 0,
    ensures
        contains_text(spec_read_model_ft_clauses(q), tag_clause_text(seq!['-', '@', 'f', 'i', 'l', 'e', '_', 'n', 'a', 'm', 'e'], file_names_view(q.exclude_file_names@))),
{
    lemma_contains_text_concat();
    reveal_strlit("-@file_name");
    assert("-@file_name"@ =~= seq!['-', '@', 'f', 'i', 'l', 'e', '_', 'n', 'a', 'm', 'e']);
    lemma_tag_query_is_clause("-@file_name"@, file_names_view(q.exclude_file_names@));
}

/// A read-model search with excluded primary genres: the clause is negated. The query holds the clause
/// `-@primary_genre:{...}` over the listed values, escaped.
pub proof fn lemma_read_model_query_exclude_primary_genres(q: AlbumSearchQuery)
    requires
        q.exclude_primary_genres@.len() > 0,
    ensures
        contains_text(spec_read_model_ft_clauses(q), tag_clause_text(seq!['-', '@', 'p', 'r', 'i', 'm', 'a', 'r', 'y', '_', 'g', 'e', 'n', 'r', 'e'], strings_view(q.exclude_primary_genres@))),
{
    lemma_contains_text_concat();
    reveal_strlit("-@primary_genre");
    assert("-@primary_genre"@ =~= seq!['-', '@', 'p', 'r', 'i', 'm', 'a', 'r', 'y', '_', 'g', 'e', 'n', 'r', 'e']);
    lemma_tag_query_is_clause("-@primary_genre"@, strings_view(q.exclude_primary_genres@));
}

/// A read-model search with excluded secondary genres: the clause is negated. The query holds the clause
/// `-@secondary_genre:{...}` over the listed values, escaped.
pub proof fn lemma_read_model_query_exclude_secondary_genres(q: AlbumSearchQuery)
    requires
        q.exclude_secondary_genres@.len() > 0,
    ensures
        contains_text(spec_read_model_ft_clauses(q), tag_clause_text(seq!['-', '@', 's', 'e', 'c', 'o', 'n', 'd', 'a', 'r', 'y', '_', 'g', 'e', 'n', 'r', 'e'], strings_view(q.exclude_secondary_genres@))),
{
    lemma_contains_text_concat();
    reveal_strlit("-@secondary_genre");
    assert("-@secondary_genre"@ =~= seq!['-', '@', 's', 'e', 'c', 'o', 'n', 'd', 'a', 'r', 'y', '_', 'g', 'e', 'n', 'r', 'e']);
    lemma_tag_query_is_clause("-@secondary_genre"@, strings_view(q.exclude_secondary_genres@));
}

/// A read-model search with excluded languages: the clause is negated. The query holds the clause
/// `-@language:{...}` over the listed values, escaped.
pub proof fn lemma_read_model_query_exclude_languages(q: AlbumSearchQuery)
    requires
        q.exclude_languages@.len() > 0,
    ensures
        contains_text(spec_read_model_ft_clauses(q), tag_clause_text(seq!['-', '@', 'l', 'a', 'n', 'g', 'u', 'a', 'g', 'e'], strings_view(q.exclude_languages@))),
{
    lemma_contains_text_concat();
    reveal_strlit("-@language");
    assert("-@language"@ =~= seq!['-', '@', 'l', 'a', 'n', 'g', 'u', 'a', 'g', 'e']);
    lemma_tag_query_is_clause("-@language"@, strings_view(q.exclude_languages@));
}

impl AlbumSearchQuery {
    /// The RediSearch query string: the clauses of
    /// [`spec_read_model_ft_clauses`] with the surrounding whitespace
    /// trimmed.
    pub fn to_ft_search_query(&self) -> (res: String)
        ensures
            res@ == spec_trim(spec_read_model_ft_clauses(*self)),
    {
        let mut q = String::new();
        let clause = get_min_num_query("@primary_genre_count", self.min_primary_genre_count);
        push_str(&mut q, clause.as_str());
        let clause = get_min_num_query("@secondary_genre_count", self.min_secondary_genre_count);
        push_str(&mut q, clause.as_str());
        let clause = get_min_num_query("@descriptor_count", self.min_descriptor_count);
        push_str(&mut q, clause.as_str());
        let clause = get_num_range_query(
            "@release_year",
            self.min_release_year,
            self.max_release_year,
        );
        push_str(&mut q, clause.as_str());
        let clause = get_tag_query("@artist_file_name", &self.include_artists);
        push_str(&mut q, clause.as_str());
        let clause = get_tag_query("@primary_genre", &self.include_primary_genres);
        push_str(&mut q, clause.as_str());
        let clause = get_tag_query("@secondary_genre", &self.include_secondary_genres);
        push_str(&mut q, clause.as_str());
        let clause = get_tag_query("@language", &self.include_languages);
        push_str(&mut q, clause.as_str());
        let clause = get_tag_query("@descriptor", &self.include_descriptors);
        push_str(&mut q, clause.as_str());
        let clause = get_tag_query("-@artist_file_name", &self.exclude_artists);
        push_str(&mut q, clause.as_str());
        let names = file_names_to_strings(&self.exclude_file_names);
        proof {
            assert(strings_view(names@) =~= file_names_view(self.exclude_file_names@));
        }
        let clause = get_tag_query("-@file_name", &names);
        push_str(&mut q, clause.as_str());
        let clause = get_tag_query("-@primary_genre", &self.exclude_primary_genres);
        push_str(&mut q, clause.as_str());
        let clause = get_tag_query("-@secondary_genre", &self.exclude_secondary_genres);
        push_str(&mut q, clause.as_str());
        let clause = get_tag_query("-@language", &self.exclude_languages);
        push_str(&mut q, clause.as_str());
        proof {
            assert(q@ =~= spec_read_model_ft_clauses(*self));
        }
        trim(q.as_str())
    }
}

/// Why a grouped row of the index is no item and count.
#[derive(Clone, Copy, PartialEq, Eq, Structural)]
pub enum RowError {
    MissingName,
    MissingCount,
    InvalidCount,
}

/// The name and count that a grouped row holds: the value of its first
/// field, and the value of its second read as a `u32`.
pub open spec fn spec_item_and_count(values: Seq<(String, String)>) -> Result<
    (Seq<char>, u32),
    RowError,
> {
    if values.len() < 1 {
        Err(RowError::MissingName)
    } else if values.len() < 2 {
        Err(RowError::MissingCount)
    } else {
        match spec_parse_u32(values[1].1@) {
            Some(c) => Ok((values[0].1@, c)),
            None => Err(RowError::InvalidCount),
        }
    }
}

/// Reads a grouped row as an item and its count.
pub fn item_and_count_from_row(values: &Vec<(String, String)>) -> (res: Result<ItemAndCount, RowError>)
    ensures
        match (res, spec_item_and_count(values@)) {
            (Ok(item), Ok((name, count))) => item.name@ == name && item.count == count,
            (Err(e), Err(f)) => e == f,
            _ => false,
        },
{
    if values.len() < 1 {
        return Err(RowError::MissingName);
    }
    if values.len() < 2 {
        return Err(RowError::MissingCount);
    }
    match parse_u32(values[1].1.as_str()) {
        Some(count) => Ok(ItemAndCount { name: values[0].1.clone(), count }),
        None => Err(RowError::InvalidCount),
    }
}

/// The items and counts of the rows that read as such, in order; the
/// others are passed over.
pub open spec fn spec_parsed_rows(rows: Seq<Vec<(String, String)>>) -> Seq<(Seq<char>, u32)>
    decreases rows.len(),
{
    if rows.len() == 0 {
        Seq::empty()
    } else {
        match spec_item_and_count(rows.last()@) {
            Ok(item) => spec_parsed_rows(rows.drop_last()).push(item),
            Err(_) => spec_parsed_rows(rows.drop_last()),
        }
    }
}

/// The view of items and counts as names with counts.
pub open spec fn items_view(items: Seq<ItemAndCount>) -> Seq<(Seq<char>, u32)> {
    items.map_values(|i: ItemAndCount| (i.name@, i.count))
}

/// Reads the rows that are items and counts, passing over the others.
pub fn parse_item_rows(rows: &Vec<Vec<(String, String)>>) -> (res: Vec<ItemAndCount>)
    ensures
        items_view(res@) == spec_parsed_rows(rows@),
{
    let mut res: Vec<ItemAndCount> = Vec::new();
    for i in 0..rows.len()
        invariant
            items_view(res@) == spec_parsed_rows(rows@.take(i as int)),
    {
        proof {
            assert(rows@.take(i + 1).drop_last() =~= rows@.take(i as int));
        }
        match item_and_count_from_row(&rows[i]) {
            Ok(item) => {
                let ghost before = res@;
                let ghost v = (item.name@, item.count);
                res.push(item);
                proof {
                    assert(res@ =~= before.push(item));
                    assert(items_view(res@) =~= items_view(before).push(v));
                }
            },
            Err(_) => {},
        }
    }
    proof {
        assert(rows@.take(rows@.len() as int) =~= rows@);
    }
    res
}

/// Orders items by count, largest first. The result holds the same items.
pub fn rank_by_count(items: &mut Vec<ItemAndCount>)
    ensures
        forall|i: int, j: int| 0 <= i < j < final(items)@.len() ==> final(items)@[i].count >= final(items)@[j].count,
        final(items)@.to_multiset() == old(items)@.to_multiset(),
{
    sort_by_rank_desc(items);
    proof {
        assert forall|i: int, j: int| 0 <= i < j < items@.len() implies items@[i].count
            >= items@[j].count by {
            assert(items@[i].rank() >= items@[j].rank());
        }
    }
}

/// The count of the last item named `x`, if any item is.
pub open spec fn last_count(items: Seq<ItemAndCount>, x: Seq<char>) -> Option<u32>
    decreases items.len(),
{
    if items.len() == 0 {
        None
    } else if items.last().name@ == x {
        Some(items.last().count)
    } else {
        last_count(items.drop_last(), x)
    }
}

pub open spec fn count_or_zero(o: Option<u32>) -> u32 {
    match o {
        Some(c) => c,
        None => 0,
    }
}

/// Some aggregate is named `x`.
pub open spec fn has_genre(res: Seq<GenreAggregate>, x: Seq<char>) -> bool {
    exists|k: int| 0 <= k < res.len() && #[trigger] res[k].name@ == x
}

/// The names of the aggregates are pairwise distinct.
pub open spec fn distinct_genres(res: Seq<GenreAggregate>) -> bool {
    forall|i: int, j: int| 0 <= i < res.len() && 0 <= j < res.len() && i != j ==> #[trigger] res[i].name@ != #[trigger] res[j].name@
}

/// The aggregate for `g`'s name agrees with the last counts of that name
/// among the primary and the secondary genres, one of which names it.
pub open spec fn agrees(g: GenreAggregate, primary: Seq<ItemAndCount>, secondary: Seq<ItemAndCount>) -> bool {
    &&& (last_count(primary, g.name@) is Some || last_count(secondary, g.name@) is Some)
    &&& g.primary_genre_count == count_or_zero(last_count(primary, g.name@))
    &&& g.secondary_genre_count == count_or_zero(last_count(secondary, g.name@))
}

/// `res` holds one aggregate per genre named among the primary or the
/// secondary genres, with the last count given for it on each side (0 where
/// a side does not name it).
pub open spec fn is_genre_merge(primary: Seq<ItemAndCount>, secondary: Seq<ItemAndCount>, res: Seq<GenreAggregate>) -> bool {
    &&& distinct_genres(res)
    &&& forall|k: int| 0 <= k < res.len() ==> #[trigger] agrees(res[k], primary, secondary)
    &&& forall|x: Seq<char>|
        #![trigger last_count(primary, x)]
        #![trigger last_count(secondary, x)]
        (last_count(primary, x) is Some || last_count(secondary, x) is Some) ==> has_genre(res, x)
}

fn find_genre(res: &Vec<GenreAggregate>, name: &String) -> (idx: Option<usize>)
    ensures
        match idx {
            Some(k) => k < res@.len() && res@[k as int].name@ == name@,
            None => !has_genre(res@, name@),
        },
{
    for k in 0..res.len()
        invariant
            forall|j: int| 0 <= j < k ==> res@[j].name@ != name@,
    {
        if res[k].name == *name {
            return Some(k);
        }
    }
    None
}

proof fn lemma_last_count_step(items: Seq<ItemAndCount>, i: int, x: Seq<char>)
    requires
        0 <= i < items.len(),
    ensures
        last_count(items.take(i + 1), x) == if items[i].name@ == x {
            Some(items[i].count)
        } else {
            last_count(items.take(i), x)
        },
{
    assert(items.take(i + 1).drop_last() =~= items.take(i));
}

/// Adds one primary genre to the aggregates of the primary genres before it.
fn merge_primary(res: &mut Vec<GenreAggregate>, primary: &Vec<ItemAndCount>, i: usize)
    requires
        i < primary@.len(),
        is_genre_merge(primary@.take(i as int), Seq::empty(), old(res)@),
    ensures
        is_genre_merge(primary@.take(i + 1), Seq::empty(), final(res)@),
{
    let ghost p0 = primary@.take(i as int);
    let ghost p1 = primary@.take(i + 1);
    let ghost empty = Seq::<ItemAndCount>::empty();
    let item = &primary[i];
    proof {
        assert forall|x: Seq<char>| true implies last_count(p1, x) == if item.name@ == x {
            Some(item.count)
        } else {
            last_count(p0, x)
        } by {
            lemma_last_count_step(primary@, i as int, x);
        }
    }
    let ghost old_res = res@;
    match find_genre(res, &item.name) {
        Some(k) => {
            let g = GenreAggregate {
                name: res[k].name.clone(),
                primary_genre_count: item.count,
                secondary_genre_count: res[k].secondary_genre_count,
            };
            res.set(k, g);
            proof {
                assert(agrees(old_res[k as int], p0, empty));
                assert forall|j: int| 0 <= j < res@.len() implies #[trigger] agrees(res@[j], p1, empty) by {
                    assert(agrees(old_res[j], p0, empty));
                    if j != k {
                        assert(old_res[j].name@ != old_res[k as int].name@);
                    }
                }
                assert forall|x: Seq<char>| (#[trigger] last_count(p1, x) is Some || #[trigger] last_count(empty, x) is Some) implies has_genre(res@, x) by {
                    if x == item.name@ {
                        assert(res@[k as int].name@ == x);
                    } else {
                        assert(last_count(p0, x) is Some);
                        assert(has_genre(old_res, x));
                        let w = choose|w: int| 0 <= w < old_res.len() && #[trigger] old_res[w].name@ == x;
                        assert(res@[w].name@ == x);
                    }
                }
            }
        },
        None => {
            let g = GenreAggregate { name: item.name.clone(), primary_genre_count: item.count, secondary_genre_count: 0 };
            res.push(g);
            proof {
                assert(res@ =~= old_res.push(g));
                assert forall|j: int| 0 <= j < res@.len() implies #[trigger] agrees(res@[j], p1, empty) by {
                    if j < old_res.len() {
                        assert(agrees(old_res[j], p0, empty));
                        assert(old_res[j].name@ != item.name@);
                    }
                }
                assert forall|a: int, b: int| 0 <= a < res@.len() && 0 <= b < res@.len() && a != b implies #[trigger] res@[a].name@ != #[trigger] res@[b].name@ by {
                    if a < old_res.len() && b < old_res.len() {
                        assert(old_res[a].name@ != old_res[b].name@);
                    } else if a < old_res.len() {
                        assert(old_res[a].name@ != item.name@);
                    } else if b < old_res.len() {
                        assert(old_res[b].name@ != item.name@);
                    }
                }
                assert forall|x: Seq<char>| (#[trigger] last_count(p1, x) is Some || #[trigger] last_count(empty, x) is Some) implies has_genre(res@, x) by {
                    if x == item.name@ {
                        assert(res@[old_res.len() as int].name@ == x);
                    } else {
                        assert(last_count(p0, x) is Some);
                        assert(has_genre(old_res, x));
                        let w = choose|w: int| 0 <= w < old_res.len() && #[trigger] old_res[w].name@ == x;
                        assert(res@[w].name@ == x);
                    }
                }
            }
        },
    }
}

/// Adds one secondary genre to the aggregates of all primary genres and the
/// secondary genres before it.
fn merge_secondary(res: &mut Vec<GenreAggregate>, primary: &Vec<ItemAndCount>, secondary: &Vec<ItemAndCount>, i: usize)
    requires
        i < secondary@.len(),
        is_genre_merge(primary@, secondary@.take(i as int), old(res)@),
    ensures
        is_genre_merge(primary@, secondary@.take(i + 1), final(res)@),
{
    let ghost s0 = secondary@.take(i as int);
    let ghost s1 = secondary@.take(i + 1);
    let ghost p = primary@;
    let item = &secondary[i];
    proof {
        assert forall|x: Seq<char>| true implies last_count(s1, x) == if item.name@ == x {
            Some(item.count)
        } else {
            last_count(s0, x)
        } by {
            lemma_last_count_step(secondary@, i as int, x);
        }
    }
    let ghost old_res = res@;
    match find_genre(res, &item.name) {
        Some(k) => {
            let g = GenreAggregate {
                name: res[k].name.clone(),
                primary_genre_count: res[k].primary_genre_count,
                secondary_genre_count: item.count,
            };
            res.set(k, g);
            proof {
                assert(agrees(old_res[k as int], p, s0));
                assert forall|j: int| 0 <= j < res@.len() implies #[trigger] agrees(res@[j], p, s1) by {
                    assert(agrees(old_res[j], p, s0));
                    if j != k {
                        assert(old_res[j].name@ != old_res[k as int].name@);
                    }
                }
                assert forall|x: Seq<char>| (#[trigger] last_count(p, x) is Some || #[trigger] last_count(s1, x) is Some) implies has_genre(res@, x) by {
                    if x == item.name@ {
                        assert(res@[k as int].name@ == x);
                    } else {
                        assert(last_count(p, x) is Some || last_count(s0, x) is Some);
                        assert(has_genre(old_res, x));
                        let w = choose|w: int| 0 <= w < old_res.len() && #[trigger] old_res[w].name@ == x;
                        assert(res@[w].name@ == x);
                    }
                }
            }
        },
        None => {
            proof {
                assert(last_count(p, item.name@) is None) by {
                    if last_count(p, item.name@) is Some {
                        assert(has_genre(old_res, item.name@));
                    }
                }
            }
            let g = GenreAggregate { name: item.name.clone(), primary_genre_count: 0, secondary_genre_count: item.count };
            res.push(g);
            proof {
                assert(res@ =~= old_res.push(g));
                assert forall|j: int| 0 <= j < res@.len() implies #[trigger] agrees(res@[j], p, s1) by {
                    if j < old_res.len() {
                        assert(agrees(old_res[j], p, s0));
                        assert(old_res[j].name@ != item.name@);
                    }
                }
                assert forall|a: int, b: int| 0 <= a < res@.len() && 0 <= b < res@.len() && a != b implies #[trigger] res@[a].name@ != #[trigger] res@[b].name@ by {
                    if a < old_res.len() && b < old_res.len() {
                        assert(old_res[a].name@ != old_res[b].name@);
                    } else if a < old_res.len() {
                        assert(old_res[a].name@ != item.name@);
                    } else if b < old_res.len() {
                        assert(old_res[b].name@ != item.name@);
                    }
                }
                assert forall|x: Seq<char>| (#[trigger] last_count(p, x) is Some || #[trigger] last_count(s1, x) is Some) implies has_genre(res@, x) by {
                    if x == item.name@ {
                        assert(res@[old_res.len() as int].name@ == x);
                    } else {
                        assert(last_count(p, x) is Some || last_count(s0, x) is Some);
                        assert(has_genre(old_res, x));
                        let w = choose|w: int| 0 <= w < old_res.len() && #[trigger] old_res[w].name@ == x;
                        assert(res@[w].name@ == x);
                    }
                }
            }
        },
    }
}

/// A reordering of a genre merge is a genre merge.
proof fn lemma_merge_reordered(primary: Seq<ItemAndCount>, secondary: Seq<ItemAndCount>, a: Seq<GenreAggregate>, b: Seq<GenreAggregate>)
    requires
        is_genre_merge(primary, secondary, a),
        a.to_multiset() == b.to_multiset(),
    ensures
        is_genre_merge(primary, secondary, b),
{
    assert(a.no_duplicates()) by {
        assert forall|i: int, j: int| 0 <= i < a.len() && 0 <= j < a.len() && i != j implies a[i] != a[j] by {
            assert(a[i].name@ != a[j].name@);
        }
    }
    a.lemma_multiset_has_no_duplicates();
    b.lemma_multiset_has_no_duplicates_conv();
    assert forall|k: int| 0 <= k < b.len() implies #[trigger] agrees(b[k], primary, secondary) by {
        lemma_same_multiset_contains(a, b, b[k]);
        assert(b.contains(b[k]));
        let w = choose|w: int| 0 <= w < a.len() && a[w] == b[k];
        assert(agrees(a[w], primary, secondary));
    }
    assert forall|i: int, j: int| 0 <= i < b.len() && 0 <= j < b.len() && i != j implies #[trigger] b[i].name@ != #[trigger] b[j].name@ by {
        lemma_same_multiset_contains(a, b, b[i]);
        lemma_same_multiset_contains(a, b, b[j]);
        assert(b.contains(b[i]));
        assert(b.contains(b[j]));
        let wi = choose|w: int| 0 <= w < a.len() && a[w] == b[i];
        let wj = choose|w: int| 0 <= w < a.len() && a[w] == b[j];
        assert(b[i] != b[j]);
        if wi != wj {
            assert(a[wi].name@ != a[wj].name@);
        }
    }
    assert forall|x: Seq<char>| (#[trigger] last_count(primary, x) is Some || #[trigger] last_count(secondary, x) is Some) implies has_genre(b, x) by {
        assert(has_genre(a, x));
        let w = choose|w: int| 0 <= w < a.len() && #[trigger] a[w].name@ == x;
        lemma_same_multiset_contains(a, b, a[w]);
        assert(a.contains(a[w]));
        let v = choose|v: int| 0 <= v < b.len() && b[v] == a[w];
        assert(b[v].name@ == x);
    }
}

/// The genre aggregates from the grouped primary and secondary genre
/// counts: one per genre named on either side, with the last count given
/// on each side (0 where a side does not name it), ranked by the sum of the
/// two counts, largest first.
pub fn merge_genre_aggregates(primary: &Vec<ItemAndCount>, secondary: &Vec<ItemAndCount>) -> (res: Vec<GenreAggregate>)
    ensures
        is_genre_merge(primary@, secondary@, res@),
        sorted_by_rank_desc(res@),
{
    let mut res: Vec<GenreAggregate> = Vec::new();
    proof {
        assert forall|x: Seq<char>| (#[trigger] last_count(primary@.take(0), x) is Some || #[trigger] last_count(Seq::<ItemAndCount>::empty(), x) is Some) implies has_genre(res@, x) by {
            assert(primary@.take(0) =~= Seq::<ItemAndCount>::empty());
        }
    }
    for i in 0..primary.len()
        invariant
            is_genre_merge(primary@.take(i as int), Seq::empty(), res@),
    {
        merge_primary(&mut res, primary, i);
    }
    proof {
        assert(primary@.take(primary@.len() as int) =~= primary@);
        assert(secondary@.take(0) =~= Seq::<ItemAndCount>::empty());
    }
    for i in 0..secondary.len()
        invariant
            is_genre_merge(primary@, secondary@.take(i as int), res@),
    {
        merge_secondary(&mut res, primary, secondary, i);
    }
    proof {
        assert(secondary@.take(secondary@.len() as int) =~= secondary@);
    }
    let ghost merged = res@;
    sort_by_rank_desc(&mut res);
    proof {
        lemma_merge_reordered(primary@, secondary@, merged, res@);
    }
    res
}

} // verus!
