//! RediSearch query strings for the album index.
use crate::albums::album_search_index::AlbumSearchQuery;
use crate::file_name::{FileName, file_names_to_strings};
use crate::redisearch::{
    escape_search_query_text, escape_tag_value, spec_escape_search_query_text,
    spec_escape_tag_value,
};
use crate::albums::album_read_model::{
    AlbumReadModel, AlbumReadModelArtist, AlbumReadModelCredit, CalendarDate, spec_ascii,
    spec_credit_tags, release_date_from_text, spec_parse_release_date,
};
use crate::parse::{parse_u32, spec_parse_u32};
use crate::text::{decimal, join, push_decimal, push_str, replace_char, replace_char_exec, spec_trim, trim};
use vstd::prelude::*;

verus! {

pub open spec fn strings_view(v: Seq<String>) -> Seq<Seq<char>> {
    v.map_values(|s: String| s@)
}

pub open spec fn file_names_view(v: Seq<FileName>) -> Seq<Seq<char>> {
    v.map_values(|f: FileName| f@)
}

/// `tag:{a|b|c} ` over the escaped items, or nothing when there are none.
pub open spec fn spec_tag_query(tag: Seq<char>, items: Seq<Seq<char>>) -> Seq<char> {
    if items.len() == 0 {
        Seq::empty()
    } else {
        tag + ":{"@ + join(items.map_values(|i: Seq<char>| spec_escape_tag_value(i)), "|"@)
            + "} "@
    }
}

/// `tag:[min, +inf] `, or nothing without a minimum.
pub open spec fn spec_min_num_query(tag: Seq<char>, min: Option<usize>) -> Seq<char> {
    match min {
        Some(m) => tag + ":["@ + decimal(m as nat) + ", +inf] "@,
        None => Seq::empty(),
    }
}

/// A numeric range clause over the bounds that are given.
pub open spec fn spec_num_range_query(tag: Seq<char>, min: Option<u32>, max: Option<u32>) -> Seq<
    char,
> {
    match (min, max) {
        (Some(lo), Some(hi)) => tag + ":["@ + decimal(lo as nat) + ", "@ + decimal(hi as nat)
            + "] "@,
        (Some(lo), None) => tag + ":["@ + decimal(lo as nat) + ", +inf] "@,
        (None, Some(hi)) => tag + ":[-inf, "@ + decimal(hi as nat) + "] "@,
        (None, None) => Seq::empty(),
    }
}

pub(crate) fn get_tag_query(tag: &str, items: &Vec<String>) -> (res: String)
    ensures
        res@ == spec_tag_query(tag@, strings_view(items@)),
{
    let ghost views = strings_view(items@);
    let ghost escaped = views.map_values(|i: Seq<char>| spec_escape_tag_value(i));
    if items.len() == 0 {
        return String::new();
    }
    let mut res = String::new();
    push_str(&mut res, tag);
    push_str(&mut res, ":{");
    let ghost start = res@;
    for i in 0..items.len()
        invariant
            items@.len() > 0,
            views == strings_view(items@),
            escaped == views.map_values(|i: Seq<char>| spec_escape_tag_value(i)),
            res@ == start + join(escaped.take(i as int), "|"@),
    {
        proof {
            assert(escaped.take(i + 1).drop_last() =~= escaped.take(i as int));
        }
        if i > 0 {
            push_str(&mut res, "|");
        }
        let value = escape_tag_value(items[i].as_str());
        push_str(&mut res, value.as_str());
        proof {
            assert(escaped[i as int] == spec_escape_tag_value(items@[i as int]@));
            if i == 0 {
                assert(res@ =~= start + escaped.take(1)[0]);
            } else {
                assert(res@ =~= start + (join(escaped.take(i as int), "|"@) + "|"@
                    + escaped.take(i + 1).last()));
            }
        }
    }
    push_str(&mut res, "} ");
    proof {
        assert(escaped.take(items@.len() as int) =~= escaped);
        assert(res@ =~= tag@ + ":{"@ + join(escaped, "|"@) + "} "@);
    }
    res
}

pub(crate) fn get_min_num_query(tag: &str, min: Option<usize>) -> (res: String)
    ensures
        res@ == spec_min_num_query(tag@, min),
{
    match min {
        Some(m) => {
            let mut res = String::new();
            push_str(&mut res, tag);
            push_str(&mut res, ":[");
            push_decimal(&mut res, m as u64);
            push_str(&mut res, ", +inf] ");
            res
        },
        None => String::new(),
    }
}

pub(crate) fn get_num_range_query(tag: &str, min: Option<u32>, max: Option<u32>) -> (res: String)
    ensures
        res@ == spec_num_range_query(tag@, min, max),
{
    let mut res = String::new();
    match (min, max) {
        (Some(lo), Some(hi)) => {
            push_str(&mut res, tag);
            push_str(&mut res, ":[");
            push_decimal(&mut res, lo as u64);
            push_str(&mut res, ", ");
            push_decimal(&mut res, hi as u64);
            push_str(&mut res, "] ");
        },
        (Some(lo), None) => {
            push_str(&mut res, tag);
            push_str(&mut res, ":[");
            push_decimal(&mut res, lo as u64);
            push_str(&mut res, ", +inf] ");
        },
        (None, Some(hi)) => {
            push_str(&mut res, tag);
            push_str(&mut res, ":[-inf, ");
            push_decimal(&mut res, hi as u64);
            push_str(&mut res, "] ");
        },
        (None, None) => {},
    }
    res
}


/// `(text) ` with the text escaped, or nothing.
pub open spec fn spec_text_clause(text: Option<String>) -> Seq<char> {
    match text {
        Some(t) => "("@ + spec_escape_search_query_text(t@) + ") "@,
        None => Seq::empty(),
    }
}

/// The clauses of an album search, in the order in which they are written,
/// each followed by one space.
pub open spec fn spec_album_ft_clauses(q: AlbumSearchQuery) -> Seq<char> {
    spec_text_clause(q.text) + match q.exact_name {
        Some(n) => spec_tag_query("@name_tag"@, seq![n@]),
        None => Seq::empty(),
    } + if q.include_duplicates == Some(true) {
        Seq::empty()
    } else {
        spec_num_range_query("@is_duplicate"@, Some(0u32), Some(0u32))
    } + spec_min_num_query("@primary_genre_count"@, q.min_primary_genre_count)
        + spec_min_num_query("@secondary_genre_count"@, q.min_secondary_genre_count)
        + spec_min_num_query("@descriptor_count"@, q.min_descriptor_count) + spec_num_range_query(
        "@release_year"@,
        q.min_release_year,
        q.max_release_year,
    ) + spec_tag_query("@file_name"@, file_names_view(q.include_file_names@)) + spec_tag_query(
        "@artist_file_name"@,
        file_names_view(q.include_artists@),
    ) + spec_tag_query("@primary_genre"@, strings_view(q.include_primary_genres@))
        + spec_tag_query("@secondary_genre"@, strings_view(q.include_secondary_genres@))
        + spec_tag_query("@language"@, strings_view(q.include_languages@)) + spec_tag_query(
        "@descriptor"@,
        strings_view(q.include_descriptors@),
    ) + spec_tag_query("-@artist_file_name"@, file_names_view(q.exclude_artists@))
        + spec_tag_query("-@file_name"@, file_names_view(q.exclude_file_names@)) + spec_tag_query(
        "-@primary_genre"@,
        strings_view(q.exclude_primary_genres@),
    ) + spec_tag_query("-@secondary_genre"@, strings_view(q.exclude_secondary_genres@))
        + spec_tag_query("-@language"@, strings_view(q.exclude_languages@))
}

/// `t` occurs in `s` as a contiguous part.
pub open spec fn contains_text(s: Seq<char>, t: Seq<char>) -> bool {
    exists|p: int| 0 <= p && p + t.len() <= s.len() && #[trigger] s.subrange(p, p + t.len()) == t
}

/// The clause that restricts the tag field `field` to the `items`: the
/// field, `:{`, the items escaped and separated by `|`, and `} `.
pub open spec fn tag_clause_text(field: Seq<char>, items: Seq<Seq<char>>) -> Seq<char> {
    field + seq![':', '{'] + join(items.map_values(|i: Seq<char>| spec_escape_tag_value(i)), seq!['|'])
        + seq!['}', ' ']
}

/// A part of either side of a text is a part of the whole.
pub proof fn lemma_contains_text_concat()
    ensures
        forall|a: Seq<char>, b: Seq<char>, t: Seq<char>| contains_text(a, t) ==> #[trigger] contains_text(a + b, t),
        forall|a: Seq<char>, b: Seq<char>, t: Seq<char>| contains_text(b, t) ==> #[trigger] contains_text(a + b, t),
        forall|t: Seq<char>| #[trigger] contains_text(t, t),
{
    assert forall|a: Seq<char>, b: Seq<char>, t: Seq<char>| contains_text(a, t) implies #[trigger] contains_text(a + b, t) by {
        let p = choose|p: int| 0 <= p && p + t.len() <= a.len() && #[trigger] a.subrange(p, p + t.len()) == t;
        assert((a + b).subrange(p, p + t.len()) =~= a.subrange(p, p + t.len()));
    }
    assert forall|a: Seq<char>, b: Seq<char>, t: Seq<char>| contains_text(b, t) implies #[trigger] contains_text(a + b, t) by {
        let p = choose|p: int| 0 <= p && p + t.len() <= b.len() && #[trigger] b.subrange(p, p + t.len()) == t;
        assert((a + b).subrange(a.len() + p, a.len() + p + t.len()) =~= b.subrange(p, p + t.len()));
    }
    assert forall|t: Seq<char>| #[trigger] contains_text(t, t) by {
        assert(t.subrange(0int, 0int + t.len()) =~= t);
    }
}

/// A tag clause over some items is the field, the items in braces and a space.
pub proof fn lemma_tag_query_is_clause(field: Seq<char>, items: Seq<Seq<char>>)
    requires
        items.len() > 0,
    ensures
        spec_tag_query(field, items) == tag_clause_text(field, items),
{
    reveal_strlit(":{");
    reveal_strlit("|");
    reveal_strlit("} ");
    assert(":{"@ =~= seq![':', '{']);
    assert("|"@ =~= seq!['|']);
    assert("} "@ =~= seq!['}', ' ']);
}

/// An album search with excluded artists: the clause is negated, so an excluded artist's albums never match. The query holds the clause
/// `-@artist_file_name:{...}` over the listed values, escaped.
pub proof fn lemma_album_query_exclude_artists(q: AlbumSearchQuery)
    requires
        q.exclude_artists@.len() > 0,
    ensures
        contains_text(spec_album_ft_clauses(q), tag_clause_text(seq!['-', '@', 'a', 'r', 't', 'i', 's', 't', '_', 'f', 'i', 'l', 'e', '_', 'n', 'a', 'm', 'e'], file_names_view(q.exclude_artists@))),
{
    lemma_contains_text_concat();
    reveal_strlit("-@artist_file_name");
    assert("-@artist_file_name"@ =~= seq!['-', '@', 'a', 'r', 't', 'i', 's', 't', '_', 'f', 'i', 'l', 'e', '_', 'n', 'a', 'm', 'e']);
    lemma_tag_query_is_clause("-@artist_file_name"@, file_names_view(q.exclude_artists@));
}

/// An album search with included artists: only albums by one of them match. The query holds the clause
/// `@artist_file_name:{...}` over the listed values, escaped.
pub proof fn lemma_album_query_include_artists(q: AlbumSearchQuery)
    requires
        q.include_artists@.len() > 0,
    ensures
        contains_text(spec_album_ft_clauses(q), tag_clause_text(seq!['@', 'a', 'r', 't', 'i', 's', 't', '_', 'f', 'i', 'l', 'e', '_', 'n', 'a', 'm', 'e'], file_names_view(q.include_artists@))),
{
    lemma_contains_text_concat();
    reveal_strlit("@artist_file_name");
    assert("@artist_file_name"@ =~= seq!['@', 'a', 'r', 't', 'i', 's', 't', '_', 'f', 'i', 'l', 'e', '_', 'n', 'a', 'm', 'e']);
    lemma_tag_query_is_clause("@artist_file_name"@, file_names_view(q.include_artists@));
}

/// An album search with excluded pages: the clause is negated, so those albums never match. The query holds the clause
/// `-@file_name:{...}` over the listed values, escaped.
pub proof fn lemma_album_query_exclude_file_names(q: AlbumSearchQuery)
    requires
        q.exclude_file_names@.len() > 0,
    ensures
        contains_text(spec_album_ft_clauses(q), tag_clause_text(seq!['-', '@', 'f', 'i', 'l', 'e', '_', 'n', 'a', 'm', 'e'], file_names_view(q.exclude_file_names@))),
{
    lemma_contains_text_concat();
    reveal_strlit("-@file_name");
    assert("-@file_name"@ =~= seq!['-', '@', 'f', 'i', 'l', 'e', '_', 'n', 'a', 'm', 'e']);
    lemma_tag_query_is_clause("-@file_name"@, file_names_view(q.exclude_file_names@));
}

/// An album search with included pages: only those albums match. The query holds the clause
/// `@file_name:{...}` over the listed values, escaped.
pub proof fn lemma_album_query_include_file_names(q: AlbumSearchQuery)
    requires
        q.include_file_names@.len() > 0,
    ensures
        contains_text(spec_album_ft_clauses(q), tag_clause_text(seq!['@', 'f', 'i', 'l', 'e', '_', 'n', 'a', 'm', 'e'], file_names_view(q.include_file_names@))),
{
    lemma_contains_text_concat();
    reveal_strlit("@file_name");
    assert("@file_name"@ =~= seq!['@', 'f', 'i', 'l', 'e', '_', 'n', 'a', 'm', 'e']);
    lemma_tag_query_is_clause("@file_name"@, file_names_view(q.include_file_names@));
}

/// An album search with included primary genres: only albums with one of them match. The query holds the clause
/// `@primary_genre:{...}` over the listed values, escaped.
pub proof fn lemma_album_query_include_primary_genres(q: AlbumSearchQuery)
    requires
        q.include_primary_genres@.len() > 0,
    ensures
        contains_text(spec_album_ft_clauses(q), tag_clause_text(seq!['@', 'p', 'r', 'i', 'm', 'a', 'r', 'y', '_', 'g', 'e', 'n', 'r', 'e'], strings_view(q.include_primary_genres@))),
{
    lemma_contains_text_concat();
    reveal_strlit("@primary_genre");
    assert("@primary_genre"@ =~= seq!['@', 'p', 'r', 'i', 'm', 'a', 'r', 'y', '_', 'g', 'e', 'n', 'r', 'e']);
    lemma_tag_query_is_clause("@primary_genre"@, strings_view(q.include_primary_genres@));
}

/// An album search with excluded primary genres: the clause is negated. The query holds the clause
/// `-@primary_genre:{...}` over the listed values, escaped.
pub proof fn lemma_album_query_exclude_primary_genres(q: AlbumSearchQuery)
    requires
        q.exclude_primary_genres@.len() > 0,
    ensures
        contains_text(spec_album_ft_clauses(q), tag_clause_text(seq!['-', '@', 'p', 'r', 'i', 'm', 'a', 'r', 'y', '_', 'g', 'e', 'n', 'r', 'e'], strings_view(q.exclude_primary_genres@))),
{
    lemma_contains_text_concat();
    reveal_strlit("-@primary_genre");
    assert("-@primary_genre"@ =~= seq!['-', '@', 'p', 'r', 'i', 'm', 'a', 'r', 'y', '_', 'g', 'e', 'n', 'r', 'e']);
    lemma_tag_query_is_clause("-@primary_genre"@, strings_view(q.exclude_primary_genres@));
}

/// An album search with included secondary genres: only albums with one of them match. The query holds the clause
/// `@secondary_genre:{...}` over the listed values, escaped.
pub proof fn lemma_album_query_include_secondary_genres(q: AlbumSearchQuery)
    requires
        q.include_secondary_genres@.len() > 0,
    ensures
        contains_text(spec_album_ft_clauses(q), tag_clause_text(seq!['@', 's', 'e', 'c', 'o', 'n', 'd', 'a', 'r', 'y', '_', 'g', 'e', 'n', 'r', 'e'], strings_view(q.include_secondary_genres@))),
{
    lemma_contains_text_concat();
    reveal_strlit("@secondary_genre");
    assert("@secondary_genre"@ =~= seq!['@', 's', 'e', 'c', 'o', 'n', 'd', 'a', 'r', 'y', '_', 'g', 'e', 'n', 'r', 'e']);
    lemma_tag_query_is_clause("@secondary_genre"@, strings_view(q.include_secondary_genres@));
}

/// An album search with excluded secondary genres: the clause is negated. The query holds the clause
/// `-@secondary_genre:{...}` over the listed values, escaped.
pub proof fn lemma_album_query_exclude_secondary_genres(q: AlbumSearchQuery)
    requires
        q.exclude_secondary_genres@.len() > 0,
    ensures
        contains_text(spec_album_ft_clauses(q), tag_clause_text(seq!['-', '@', 's', 'e', 'c', 'o', 'n', 'd', 'a', 'r', 'y', '_', 'g', 'e', 'n', 'r', 'e'], strings_view(q.exclude_secondary_genres@))),
{
    lemma_contains_text_concat();
    reveal_strlit("-@secondary_genre");
    assert("-@secondary_genre"@ =~= seq!['-', '@', 's', 'e', 'c', 'o', 'n', 'd', 'a', 'r', 'y', '_', 'g', 'e', 'n', 'r', 'e']);
    lemma_tag_query_is_clause("-@secondary_genre"@, strings_view(q.exclude_secondary_genres@));
}

/// An album search with included languages: only albums in one of them match. The query holds the clause
/// `@language:{...}` over the listed values, escaped.
pub proof fn lemma_album_query_include_languages(q: AlbumSearchQuery)
    requires
        q.include_languages@.len() > 0,
    ensures
        contains_text(spec_album_ft_clauses(q), tag_clause_text(seq!['@', 'l', 'a', 'n', 'g', 'u', 'a', 'g', 'e'], strings_view(q.include_languages@))),
{
    lemma_contains_text_concat();
    reveal_strlit("@language");
    assert("@language"@ =~= seq!['@', 'l', 'a', 'n', 'g', 'u', 'a', 'g', 'e']);
    lemma_tag_query_is_clause("@language"@, strings_view(q.include_languages@));
}

/// An album search with excluded languages: the clause is negated. The query holds the clause
/// `-@language:{...}` over the listed values, escaped.
pub proof fn lemma_album_query_exclude_languages(q: AlbumSearchQuery)
    requires
        q.exclude_languages@.len() > 0,
    ensures
        contains_text(spec_album_ft_clauses(q), tag_clause_text(seq!['-', '@', 'l', 'a', 'n', 'g', 'u', 'a', 'g', 'e'], strings_view(q.exclude_languages@))),
{
    lemma_contains_text_concat();
    reveal_strlit("-@language");
    assert("-@language"@ =~= seq!['-', '@', 'l', 'a', 'n', 'g', 'u', 'a', 'g', 'e']);
    lemma_tag_query_is_clause("-@language"@, strings_view(q.exclude_languages@));
}

/// An album search with included descriptors: only albums with one of them match. The query holds the clause
/// `@descriptor:{...}` over the listed values, escaped.
pub proof fn lemma_album_query_include_descriptors(q: AlbumSearchQuery)
    requires
        q.include_descriptors@.len() > 0,
    ensures
        contains_text(spec_album_ft_clauses(q), tag_clause_text(seq!['@', 'd', 'e', 's', 'c', 'r', 'i', 'p', 't', 'o', 'r'], strings_view(q.include_descriptors@))),
{
    lemma_contains_text_concat();
    reveal_strlit("@descriptor");
    assert("@descriptor"@ =~= seq!['@', 'd', 'e', 's', 'c', 'r', 'i', 'p', 't', 'o', 'r']);
    lemma_tag_query_is_clause("@descriptor"@, strings_view(q.include_descriptors@));
}

/// An album search whose only filter is a set of excluded artists asks for
/// exactly the albums that are no duplicate and are by none of those
/// artists: `@is_duplicate:[0, 0] -@artist_file_name:{...} `, with no other
/// clause on the artist field.
pub proof fn lemma_album_query_only_excluded_artists(q: AlbumSearchQuery)
    requires
        q.text is None,
        q.exact_name is None,
        q.include_duplicates != Some(true),
        q.min_primary_genre_count is None,
        q.min_secondary_genre_count is None,
        q.min_descriptor_count is None,
        q.min_release_year is None,
        q.max_release_year is None,
        q.include_file_names@.len() == 0,
        q.include_artists@.len() == 0,
        q.include_primary_genres@.len() == 0,
        q.include_secondary_genres@.len() == 0,
        q.include_languages@.len() == 0,
        q.include_descriptors@.len() == 0,
        q.exclude_file_names@.len() == 0,
        q.exclude_primary_genres@.len() == 0,
        q.exclude_secondary_genres@.len() == 0,
        q.exclude_languages@.len() == 0,
        q.exclude_artists@.len() > 0,
    ensures
        spec_album_ft_clauses(q) == seq!['@', 'i', 's', '_', 'd', 'u', 'p', 'l', 'i', 'c', 'a', 't', 'e', ':', '[', '0', ',', ' ', '0', ']', ' ']
            + tag_clause_text(
            seq!['-', '@', 'a', 'r', 't', 'i', 's', 't', '_', 'f', 'i', 'l', 'e', '_', 'n', 'a', 'm', 'e'],
            file_names_view(q.exclude_artists@),
        ),
{
    reveal_strlit("@is_duplicate");
    reveal_strlit(":[");
    reveal_strlit(", ");
    reveal_strlit("] ");
    reveal_strlit("-@artist_file_name");
    assert(decimal(0) =~= seq!['0']);
    lemma_tag_query_is_clause("-@artist_file_name"@, file_names_view(q.exclude_artists@));
    assert("-@artist_file_name"@ =~= seq!['-', '@', 'a', 'r', 't', 'i', 's', 't', '_', 'f', 'i', 'l', 'e', '_', 'n', 'a', 'm', 'e']);
    assert(spec_num_range_query("@is_duplicate"@, Some(0u32), Some(0u32)) =~= seq!['@', 'i', 's', '_', 'd', 'u', 'p', 'l', 'i', 'c', 'a', 't', 'e', ':', '[', '0', ',', ' ', '0', ']', ' ']);
    assert(spec_album_ft_clauses(q) =~= seq!['@', 'i', 's', '_', 'd', 'u', 'p', 'l', 'i', 'c', 'a', 't', 'e', ':', '[', '0', ',', ' ', '0', ']', ' ']
        + tag_clause_text(
        seq!['-', '@', 'a', 'r', 't', 'i', 's', 't', '_', 'f', 'i', 'l', 'e', '_', 'n', 'a', 'm', 'e'],
        file_names_view(q.exclude_artists@),
    ));
}

/// The range clause on a numeric field: the field, `:[`, the lower bound
/// or `-inf`, `, `, the upper bound or `+inf`, and `] `.
pub open spec fn range_clause_text(field: Seq<char>, lo: Option<nat>, hi: Option<nat>) -> Seq<char> {
    field + seq![':', '['] + match lo {
        Some(l) => decimal(l),
        None => seq!['-', 'i', 'n', 'f'],
    } + seq![',', ' '] + match hi {
        Some(h) => decimal(h),
        None => seq!['+', 'i', 'n', 'f'],
    } + seq![']', ' ']
}

proof fn lemma_range_queries_are_clauses(field: Seq<char>)
    ensures
        forall|m: usize| #[trigger] spec_min_num_query(field, Some(m)) == range_clause_text(field, Some(m as nat), None),
        forall|lo: Option<u32>, hi: Option<u32>| (lo is Some || hi is Some) ==> #[trigger] spec_num_range_query(field, lo, hi)
            == range_clause_text(
            field,
            match lo {
                Some(l) => Some(l as nat),
                None => None,
            },
            match hi {
                Some(h) => Some(h as nat),
                None => None,
            },
        ),
{
    reveal_strlit(":[");
    reveal_strlit(", +inf] ");
    reveal_strlit(", ");
    reveal_strlit("] ");
    reveal_strlit(":[-inf, ");
    assert forall|m: usize| #[trigger] spec_min_num_query(field, Some(m)) == range_clause_text(field, Some(m as nat), None) by {
        assert(spec_min_num_query(field, Some(m)) =~= range_clause_text(field, Some(m as nat), None));
    }
    assert forall|lo: Option<u32>, hi: Option<u32>| (lo is Some || hi is Some) implies #[trigger] spec_num_range_query(field, lo, hi)
        == range_clause_text(
        field,
        match lo {
            Some(l) => Some(l as nat),
            None => None,
        },
        match hi {
            Some(h) => Some(h as nat),
            None => None,
        },
    ) by {
        let l2 = match lo {
            Some(l) => Some(l as nat),
            None => None,
        };
        let h2 = match hi {
            Some(h) => Some(h as nat),
            None => None,
        };
        assert(spec_num_range_query(field, lo, hi) =~= range_clause_text(field, l2, h2));
    }
}

/// The numeric filters of an album search bound their fields: a minimum
/// count bounds its count from below, the release years bound the year
/// from below, above or both, and unless duplicates are asked for, only
/// albums whose duplicate flag is 0 match.
pub proof fn lemma_album_query_bounds(q: AlbumSearchQuery)
    ensures
        q.include_duplicates != Some(true) ==> contains_text(
            spec_album_ft_clauses(q),
            range_clause_text(seq!['@', 'i', 's', '_', 'd', 'u', 'p', 'l', 'i', 'c', 'a', 't', 'e'], Some(0nat), Some(0nat)),
        ),
        q.min_primary_genre_count matches Some(c) ==> contains_text(
            spec_album_ft_clauses(q),
            range_clause_text(seq!['@', 'p', 'r', 'i', 'm', 'a', 'r', 'y', '_', 'g', 'e', 'n', 'r', 'e', '_', 'c', 'o', 'u', 'n', 't'], Some(c as nat), None),
        ),
        q.min_secondary_genre_count matches Some(c) ==> contains_text(
            spec_album_ft_clauses(q),
            range_clause_text(seq!['@', 's', 'e', 'c', 'o', 'n', 'd', 'a', 'r', 'y', '_', 'g', 'e', 'n', 'r', 'e', '_', 'c', 'o', 'u', 'n', 't'], Some(c as nat), None),
        ),
        q.min_descriptor_count matches Some(c) ==> contains_text(
            spec_album_ft_clauses(q),
            range_clause_text(seq!['@', 'd', 'e', 's', 'c', 'r', 'i', 'p', 't', 'o', 'r', '_', 'c', 'o', 'u', 'n', 't'], Some(c as nat), None),
        ),
        (q.min_release_year is Some || q.max_release_year is Some) ==> contains_text(
            spec_album_ft_clauses(q),
            range_clause_text(
                seq!['@', 'r', 'e', 'l', 'e', 'a', 's', 'e', '_', 'y', 'e', 'a', 'r'],
                match q.min_release_year {
                    Some(y) => Some(y as nat),
                    None => None,
                },
                match q.max_release_year {
                    Some(y) => Some(y as nat),
                    None => None,
                },
            ),
        ),
{
    lemma_contains_text_concat();
    reveal_strlit("@is_duplicate");
    reveal_strlit("@primary_genre_count");
    reveal_strlit("@secondary_genre_count");
    reveal_strlit("@descriptor_count");
    reveal_strlit("@release_year");
    assert("@is_duplicate"@ =~= seq!['@', 'i', 's', '_', 'd', 'u', 'p', 'l', 'i', 'c', 'a', 't', 'e']);
    assert("@primary_genre_count"@ =~= seq!['@', 'p', 'r', 'i', 'm', 'a', 'r', 'y', '_', 'g', 'e', 'n', 'r', 'e', '_', 'c', 'o', 'u', 'n', 't']);
    assert("@secondary_genre_count"@ =~= seq!['@', 's', 'e', 'c', 'o', 'n', 'd', 'a', 'r', 'y', '_', 'g', 'e', 'n', 'r', 'e', '_', 'c', 'o', 'u', 'n', 't']);
    assert("@descriptor_count"@ =~= seq!['@', 'd', 'e', 's', 'c', 'r', 'i', 'p', 't', 'o', 'r', '_', 'c', 'o', 'u', 'n', 't']);
    assert("@release_year"@ =~= seq!['@', 'r', 'e', 'l', 'e', 'a', 's', 'e', '_', 'y', 'e', 'a', 'r']);
    lemma_range_queries_are_clauses("@is_duplicate"@);
    lemma_range_queries_are_clauses("@primary_genre_count"@);
    lemma_range_queries_are_clauses("@secondary_genre_count"@);
    lemma_range_queries_are_clauses("@descriptor_count"@);
    lemma_range_queries_are_clauses("@release_year"@);
}

fn get_file_name_tag_query(tag: &str, items: &Vec<FileName>) -> (res: String)
    ensures
        res@ == spec_tag_query(tag@, file_names_view(items@)),
{
    let texts = file_names_to_strings(items);
    proof {
        assert(strings_view(texts@) =~= file_names_view(items@));
    }
    get_tag_query(tag, &texts)
}

impl AlbumSearchQuery {
    /// The RediSearch query string: the clauses of
    /// [`spec_album_ft_clauses`] with the surrounding whitespace trimmed.
    pub fn to_ft_search_query(&self) -> (res: String)
        ensures
            res@ == spec_trim(spec_album_ft_clauses(*self)),
    {
        let mut q = String::new();
        match &self.text {
            Some(text) => {
                push_str(&mut q, "(");
                let escaped = escape_search_query_text(text.as_str());
                push_str(&mut q, escaped.as_str());
                push_str(&mut q, ") ");
            },
            None => {},
        }
        let ghost c0 = q@;
        match &self.exact_name {
            Some(exact_name) => {
                let names = vec![exact_name.clone()];
                proof {
                    assert(strings_view(names@) =~= seq![exact_name@]);
                }
                let clause = get_tag_query("@name_tag", &names);
                push_str(&mut q, clause.as_str());
            },
            None => {},
        }
        let ghost c1 = q@;
        let include_duplicates = match self.include_duplicates {
            Some(b) => b,
            None => false,
        };
        if !include_duplicates {
            let clause = get_num_range_query("@is_duplicate", Some(0), Some(0));
            push_str(&mut q, clause.as_str());
        }
        let ghost c2 = q@;
        let clause = get_min_num_query("@primary_genre_count", self.min_primary_genre_count);
        push_str(&mut q, clause.as_str());
        let clause = get_min_num_query("@secondary_genre_count", self.min_secondary_genre_count);
        push_str(&mut q, clause.as_str());
        let clause = get_min_num_query("@descriptor_count", self.min_descriptor_count);
        push_str(&mut q, clause.as_str());
        let clause = get_num_range_query(
            "@release_year",
            self.min_release_year,
            self.max_release_year,
        );
        push_str(&mut q, clause.as_str());
        let clause = get_file_name_tag_query("@file_name", &self.include_file_names);
        push_str(&mut q, clause.as_str());
        let clause = get_file_name_tag_query("@artist_file_name", &self.include_artists);
        push_str(&mut q, clause.as_str());
        let clause = get_tag_query("@primary_genre", &self.include_primary_genres);
        push_str(&mut q, clause.as_str());
        let clause = get_tag_query("@secondary_genre", &self.include_secondary_genres);
        push_str(&mut q, clause.as_str());
        let clause = get_tag_query("@language", &self.include_languages);
        push_str(&mut q, clause.as_str());
        let clause = get_tag_query("@descriptor", &self.include_descriptors);
        push_str(&mut q, clause.as_str());
        let clause = get_file_name_tag_query("-@artist_file_name", &self.exclude_artists);
        push_str(&mut q, clause.as_str());
        let clause = get_file_name_tag_query("-@file_name", &self.exclude_file_names);
        push_str(&mut q, clause.as_str());
        let clause = get_tag_query("-@primary_genre", &self.exclude_primary_genres);
        push_str(&mut q, clause.as_str());
        let clause = get_tag_query("-@secondary_genre", &self.exclude_secondary_genres);
        push_str(&mut q, clause.as_str());
        let clause = get_tag_query("-@language", &self.exclude_languages);
        push_str(&mut q, clause.as_str());
        proof {
            assert(c0 == spec_text_clause(self.text));
            assert(c2 =~= spec_text_clause(self.text) + match self.exact_name {
                Some(n) => spec_tag_query("@name_tag"@, seq![n@]),
                None => Seq::empty(),
            } + if self.include_duplicates == Some(true) {
                Seq::empty()
            } else {
                spec_num_range_query("@is_duplicate"@, Some(0u32), Some(0u32))
            });
            assert(q@ =~= spec_album_ft_clauses(*self));
        }
        trim(q.as_str())
    }
}

/// An artist as the album documents of the search index hold it, with
/// its name also in ASCII for matching.
pub struct RedisAlbumReadModelArtist {
    pub name: String,
    pub ascii_name: String,
    pub file_name: FileName,
}

impl RedisAlbumReadModelArtist {
    /// The indexed form of an album's artist.
    pub fn from_artist(artist: AlbumReadModelArtist) -> (res: Self)
        ensures
            res.name@ == artist.name@,
            res.ascii_name@ == spec_ascii(artist.name@),
            res.file_name@ == artist.file_name@,
    {
        let ascii_name = artist.ascii_name();
        RedisAlbumReadModelArtist { name: artist.name, ascii_name, file_name: artist.file_name }
    }

    /// The album's artist that an indexed artist stands for.
    pub fn into_artist(self) -> (res: AlbumReadModelArtist)
        ensures
            res.name@ == self.name@,
            res.file_name@ == self.file_name@,
    {
        AlbumReadModelArtist { name: self.name, file_name: self.file_name }
    }
}

/// The prefix of the keys of album documents.
pub const NAMESPACE: &'static str = "album";

/// The key of the document of an album: `album:` and its page name.
pub fn redis_key(file_name: &FileName) -> (res: String)
    ensures
        res@ == NAMESPACE@ + ":"@ + file_name@,
{
    let mut s = String::new();
    push_str(&mut s, NAMESPACE);
    push_str(&mut s, ":");
    push_str(&mut s, file_name.0.as_str());
    proof {
        assert(s@ =~= NAMESPACE@ + ":"@ + file_name@);
    }
    s
}

/// The document field that holds the embedding of a provider: `embedding_`
/// and the provider key with its dashes turned into underscores.
pub open spec fn spec_embedding_json_key(key: Seq<char>) -> Seq<char> {
    "embedding_"@ + replace_char(key, '-', '_')
}

/// The document field that holds the embedding of a provider.
pub fn embedding_json_key(key: &str) -> (res: String)
    ensures
        res@ == spec_embedding_json_key(key@),
{
    let normalized = replace_char_exec(key, '-', '_');
    let mut s = String::new();
    push_str(&mut s, "embedding_");
    push_str(&mut s, normalized.as_str());
    s
}

/// The JSON path of the embedding of a provider: `$.` and its field.
pub fn embedding_json_path(key: &str) -> (res: String)
    ensures
        res@ == "$."@ + spec_embedding_json_key(key@),
{
    let field = embedding_json_key(key);
    let mut s = String::new();
    push_str(&mut s, "$.");
    push_str(&mut s, field.as_str());
    s
}

/// The query for the `limit` albums nearest to an embedding under the
/// filters: `(filters)=>[KNN limit @field $BLOB as distance]`, the field
/// being that of the provider key `embedding_key`.
pub open spec fn spec_similarity_query(filters: AlbumSearchQuery, limit: usize, embedding_key: Seq<char>) -> Seq<char> {
    "("@ + spec_trim(spec_album_ft_clauses(filters)) + ")=>[KNN "@ + decimal(limit as nat) + " @"@
        + spec_embedding_json_key(embedding_key) + " $BLOB as distance]"@
}

/// The nearest-neighbour query over the albums that match `filters`; the
/// embedding itself travels as the query parameter `BLOB`.
pub fn embedding_similarity_ft_query(filters: &AlbumSearchQuery, limit: usize, embedding_key: &str) -> (res: String)
    ensures
        res@ == spec_similarity_query(*filters, limit, embedding_key@),
{
    let inner = filters.to_ft_search_query();
    let field = embedding_json_key(embedding_key);
    let mut s = String::new();
    push_str(&mut s, "(");
    push_str(&mut s, inner.as_str());
    push_str(&mut s, ")=>[KNN ");
    push_decimal(&mut s, limit as u64);
    push_str(&mut s, " @");
    push_str(&mut s, field.as_str());
    push_str(&mut s, " $BLOB as distance]");
    proof {
        assert(s@ =~= spec_similarity_query(*filters, limit, embedding_key@));
    }
    s
}

/// Whether an album's document must be created before parts are written
/// into it: there is none, or it is the empty object `{}`.
pub fn needs_album_root(stored: &Option<String>) -> (res: bool)
    ensures
        res == match stored {
            Some(json) => json@ == "{}"@,
            None => true,
        },
{
    match stored {
        Some(json) => *json == "{}".to_owned(),
        None => true,
    }
}

/// An album as the search index stores it: the read model with its name
/// also in ASCII and as an exact-match tag, the counts of its lists, its
/// release year, its credit tags and whether it duplicates another album.
/// The rating and the tracks, which hold floating-point figures, travel
/// beside it in the application.
pub struct RedisAlbumReadModel {
    pub name: String,
    pub ascii_name: String,
    pub file_name: FileName,
    pub rating_count: u32,
    pub artists: Vec<RedisAlbumReadModelArtist>,
    pub artist_count: u32,
    pub primary_genres: Vec<String>,
    pub primary_genre_count: u32,
    pub secondary_genres: Vec<String>,
    pub secondary_genre_count: u32,
    pub descriptors: Vec<String>,
    pub descriptor_count: u32,
    pub release_date: Option<CalendarDate>,
    pub release_year: Option<u32>,
    pub languages: Vec<String>,
    pub language_count: u32,
    pub credits: Vec<AlbumReadModelCredit>,
    pub credit_tags: Vec<String>,
    pub credit_tag_count: u32,
    pub duplicate_of: Option<FileName>,
    pub is_duplicate: u8,
    pub duplicates: Vec<FileName>,
    pub name_tag: String,
    pub cover_image_url: Option<String>,
}

/// `r` is the indexed form of album `a`.
pub open spec fn is_indexed_form(r: RedisAlbumReadModel, a: AlbumReadModel) -> bool {
    &&& r.name@ == a.name@
    &&& r.name_tag@ == a.name@
    &&& r.ascii_name@ == spec_ascii(a.name@)
    &&& r.file_name@ == a.file_name@
    &&& r.rating_count == a.rating_count
    &&& r.artists@.len() == a.artists@.len()
    &&& forall|i: int| 0 <= i < r.artists@.len() ==> {
        &&& (#[trigger] r.artists@[i]).name@ == a.artists@[i].name@
        &&& r.artists@[i].ascii_name@ == spec_ascii(a.artists@[i].name@)
        &&& r.artists@[i].file_name@ == a.artists@[i].file_name@
    }
    &&& r.artist_count == a.artists@.len() as u32
    &&& r.primary_genres == a.primary_genres
    &&& r.primary_genre_count == a.primary_genres@.len() as u32
    &&& r.secondary_genres == a.secondary_genres
    &&& r.secondary_genre_count == a.secondary_genres@.len() as u32
    &&& r.descriptors == a.descriptors
    &&& r.descriptor_count == a.descriptors@.len() as u32
    &&& r.release_date == a.release_date
    &&& r.release_year == match a.release_date {
        Some(d) => Some(d.year as u32),
        None => None,
    }
    &&& r.languages == a.languages
    &&& r.language_count == a.languages@.len() as u32
    &&& r.credits == a.credits
    &&& r.credit_tags@.map_values(|t: String| t@) == spec_credit_tags(a.credits@)
    &&& r.credit_tag_count == spec_credit_tags(a.credits@).len() as u32
    &&& r.duplicate_of == a.duplicate_of
    &&& r.is_duplicate == if a.duplicate_of is Some { 1u8 } else { 0u8 }
    &&& r.duplicates == a.duplicates
    &&& r.cover_image_url == a.cover_image_url
}

/// `a` is the album that the indexed album `r` stands for.
pub open spec fn is_read_model_of(a: AlbumReadModel, r: RedisAlbumReadModel) -> bool {
    &&& a.name@ == r.name@
    &&& a.file_name@ == r.file_name@
    &&& a.rating_count == r.rating_count
    &&& a.artists@.len() == r.artists@.len()
    &&& forall|i: int| 0 <= i < a.artists@.len() ==> (#[trigger] a.artists@[i]).name@ == r.artists@[i].name@
        && a.artists@[i].file_name@ == r.artists@[i].file_name@
    &&& a.primary_genres == r.primary_genres
    &&& a.secondary_genres == r.secondary_genres
    &&& a.descriptors == r.descriptors
    &&& a.release_date == r.release_date
    &&& a.languages == r.languages
    &&& a.credits == r.credits
    &&& a.duplicate_of == r.duplicate_of
    &&& a.duplicates == r.duplicates
    &&& a.cover_image_url == r.cover_image_url
}

/// Two albums agree on every field, names taken by their characters.
pub open spec fn same_album(a: AlbumReadModel, b: AlbumReadModel) -> bool {
    &&& a.name@ == b.name@
    &&& a.file_name@ == b.file_name@
    &&& a.rating_count == b.rating_count
    &&& a.artists@.len() == b.artists@.len()
    &&& forall|i: int| 0 <= i < a.artists@.len() ==> (#[trigger] a.artists@[i]).name@ == b.artists@[i].name@
        && a.artists@[i].file_name@ == b.artists@[i].file_name@
    &&& a.primary_genres == b.primary_genres
    &&& a.secondary_genres == b.secondary_genres
    &&& a.descriptors == b.descriptors
    &&& a.release_date == b.release_date
    &&& a.languages == b.languages
    &&& a.credits == b.credits
    &&& a.duplicate_of == b.duplicate_of
    &&& a.duplicates == b.duplicates
    &&& a.cover_image_url == b.cover_image_url
}

/// Storing an album in the index and reading it back gives the album.
pub proof fn lemma_index_roundtrip(a: AlbumReadModel, r: RedisAlbumReadModel, b: AlbumReadModel)
    requires
        is_indexed_form(r, a),
        is_read_model_of(b, r),
    ensures
        same_album(b, a),
{
    assert forall|i: int| 0 <= i < b.artists@.len() implies (#[trigger] b.artists@[i]).name@ == a.artists@[i].name@
        && b.artists@[i].file_name@ == a.artists@[i].file_name@ by {
        assert(r.artists@[i].name@ == a.artists@[i].name@);
    }
}

fn index_artists(artists: Vec<AlbumReadModelArtist>) -> (res: Vec<RedisAlbumReadModelArtist>)
    ensures
        res@.len() == artists@.len(),
        forall|i: int| 0 <= i < res@.len() ==> {
            &&& (#[trigger] res@[i]).name@ == artists@[i].name@
            &&& res@[i].ascii_name@ == spec_ascii(artists@[i].name@)
            &&& res@[i].file_name@ == artists@[i].file_name@
        },
{
    let mut res: Vec<RedisAlbumReadModelArtist> = Vec::new();
    for i in 0..artists.len()
        invariant
            res@.len() == i,
            forall|j: int| 0 <= j < i ==> {
                &&& (#[trigger] res@[j]).name@ == artists@[j].name@
                &&& res@[j].ascii_name@ == spec_ascii(artists@[j].name@)
                &&& res@[j].file_name@ == artists@[j].file_name@
            },
    {
        let a = &artists[i];
        let ascii_name = a.ascii_name();
        res.push(RedisAlbumReadModelArtist { name: a.name.clone(), ascii_name, file_name: a.file_name.clone() });
    }
    res
}

impl RedisAlbumReadModel {
    /// The indexed form of an album.
    pub fn from_album(album: AlbumReadModel) -> (res: Self)
        ensures
            is_indexed_form(res, album),
    {
        let ascii_name = album.ascii_name();
        let credit_tags = album.credit_tags();
        let credit_tag_count = credit_tags.len() as u32;
        let artist_count = album.artists.len() as u32;
        let primary_genre_count = album.primary_genres.len() as u32;
        let secondary_genre_count = album.secondary_genres.len() as u32;
        let descriptor_count = album.descriptors.len() as u32;
        let language_count = album.languages.len() as u32;
        let release_year = match album.release_date {
            Some(d) => Some(d.year as u32),
            None => None,
        };
        let is_duplicate: u8 = match album.duplicate_of {
            Some(_) => 1,
            None => 0,
        };
        let name_tag = album.name.clone();
        RedisAlbumReadModel {
            name_tag,
            name: album.name,
            ascii_name,
            file_name: album.file_name,
            rating_count: album.rating_count,
            artists: index_artists(album.artists),
            artist_count,
            primary_genres: album.primary_genres,
            primary_genre_count,
            secondary_genres: album.secondary_genres,
            secondary_genre_count,
            descriptors: album.descriptors,
            descriptor_count,
            release_date: album.release_date,
            release_year,
            languages: album.languages,
            language_count,
            credits: album.credits,
            credit_tags,
            credit_tag_count,
            duplicate_of: album.duplicate_of,
            is_duplicate,
            duplicates: album.duplicates,
            cover_image_url: album.cover_image_url,
        }
    }
}

fn read_model_artists(artists: Vec<RedisAlbumReadModelArtist>) -> (res: Vec<AlbumReadModelArtist>)
    ensures
        res@.len() == artists@.len(),
        forall|i: int| 0 <= i < res@.len() ==> (#[trigger] res@[i]).name@ == artists@[i].name@
            && res@[i].file_name@ == artists@[i].file_name@,
{
    let mut res: Vec<AlbumReadModelArtist> = Vec::new();
    for i in 0..artists.len()
        invariant
            res@.len() == i,
            forall|j: int| 0 <= j < i ==> (#[trigger] res@[j]).name@ == artists@[j].name@
                && res@[j].file_name@ == artists@[j].file_name@,
    {
        let a = &artists[i];
        res.push(AlbumReadModelArtist { name: a.name.clone(), file_name: a.file_name.clone() });
    }
    res
}

impl RedisAlbumReadModel {
    /// The album that an indexed album stands for.
    pub fn into_album(self) -> (res: AlbumReadModel)
        ensures
            is_read_model_of(res, self),
    {
        AlbumReadModel {
            name: self.name,
            file_name: self.file_name,
            rating_count: self.rating_count,
            artists: read_model_artists(self.artists),
            primary_genres: self.primary_genres,
            secondary_genres: self.secondary_genres,
            descriptors: self.descriptors,
            release_date: self.release_date,
            languages: self.languages,
            credits: self.credits,
            duplicate_of: self.duplicate_of,
            duplicates: self.duplicates,
            cover_image_url: self.cover_image_url,
        }
    }
}

/// The text of the last value under `key`, if any.
pub open spec fn last_value(values: Seq<(String, String)>, key: Seq<char>) -> Option<Seq<char>>
    decreases values.len(),
{
    if values.len() == 0 {
        None
    } else if values.last().0@ == key {
        Some(values.last().1@)
    } else {
        last_value(values.drop_last(), key)
    }
}

/// The text of an optional string.
pub open spec fn opt_view(o: Option<String>) -> Option<Seq<char>> {
    match o {
        Some(s) => Some(s@),
        None => None,
    }
}

fn last_value_exec(values: &Vec<(String, String)>, key: &str) -> (res: Option<String>)
    ensures
        opt_view(res) == last_value(values@, key@),
{
    let wanted = key.to_owned();
    let mut k = values.len();
    proof {
        assert(values@.take(values@.len() as int) =~= values@);
    }
    while k > 0
        invariant
            k <= values@.len(),
            wanted@ == key@,
            last_value(values@, key@) == last_value(values@.take(k as int), key@),
        decreases k,
    {
        proof {
            assert(values@.take(k as int).drop_last() =~= values@.take(k - 1));
            assert(values@.take(k as int).last() == values@[k - 1]);
        }
        if values[k - 1].0 == wanted {
            return Some(values[k - 1].1.clone());
        }
        k = k - 1;
    }
    None
}

/// The values of a search result row by the attribute they belong to,
/// each the last one returned for it, still as text: the application reads
/// the lists and the rating from their JSON and decimal forms.
pub struct SearchRowFields {
    pub name: Option<String>,
    pub file_name: Option<String>,
    pub rating: Option<String>,
    pub rating_count: Option<String>,
    pub artists: Option<String>,
    pub primary_genres: Option<String>,
    pub secondary_genres: Option<String>,
    pub descriptors: Option<String>,
    pub tracks: Option<String>,
    pub release_date: Option<String>,
    pub languages: Option<String>,
    pub credits: Option<String>,
    pub duplicate_of: Option<String>,
    pub duplicates: Option<String>,
    pub cover_image_url: Option<String>,
}

/// Sorts the values of a search result row by attribute; values of other
/// attributes are passed over.
pub fn search_row_fields(values: &Vec<(String, String)>) -> (res: SearchRowFields)
    ensures
            opt_view(res.name) == last_value(values@, "$.name"@),
            opt_view(res.file_name) == last_value(values@, "$.file_name"@),
            opt_view(res.rating) == last_value(values@, "$.rating"@),
            opt_view(res.rating_count) == last_value(values@, "$.rating_count"@),
            opt_view(res.artists) == last_value(values@, "$.artists"@),
            opt_view(res.primary_genres) == last_value(values@, "$.primary_genres"@),
            opt_view(res.secondary_genres) == last_value(values@, "$.secondary_genres"@),
            opt_view(res.descriptors) == last_value(values@, "$.descriptors"@),
            opt_view(res.tracks) == last_value(values@, "$.tracks"@),
            opt_view(res.release_date) == last_value(values@, "$.release_date"@),
            opt_view(res.languages) == last_value(values@, "$.languages"@),
            opt_view(res.credits) == last_value(values@, "$.credits"@),
            opt_view(res.duplicate_of) == last_value(values@, "$.duplicate_of"@),
            opt_view(res.duplicates) == last_value(values@, "$.duplicates"@),
            opt_view(res.cover_image_url) == last_value(values@, "$.cover_image_url"@),
{
    let name = last_value_exec(values, "$.name");
    let file_name = last_value_exec(values, "$.file_name");
    let rating = last_value_exec(values, "$.rating");
    let rating_count = last_value_exec(values, "$.rating_count");
    let artists = last_value_exec(values, "$.artists");
    let primary_genres = last_value_exec(values, "$.primary_genres");
    let secondary_genres = last_value_exec(values, "$.secondary_genres");
    let descriptors = last_value_exec(values, "$.descriptors");
    let tracks = last_value_exec(values, "$.tracks");
    let release_date = last_value_exec(values, "$.release_date");
    let languages = last_value_exec(values, "$.languages");
    let credits = last_value_exec(values, "$.credits");
    let duplicate_of = last_value_exec(values, "$.duplicate_of");
    let duplicates = last_value_exec(values, "$.duplicates");
    let cover_image_url = last_value_exec(values, "$.cover_image_url");
    SearchRowFields { name, file_name, rating, rating_count, artists, primary_genres, secondary_genres, descriptors, tracks, release_date, languages, credits, duplicate_of, duplicates, cover_image_url }
}

/// An optional attribute of a row: an empty text stands for none.
pub fn optional_text(value: Option<String>) -> (res: Option<String>)
    ensures
        opt_view(res) == match value {
            Some(v) => if v@.len() == 0 {
                None
            } else {
                Some(v@)
            },
            None => None,
        },
{
    match value {
        Some(v) => {
            if v.as_str().is_empty() {
                None
            } else {
                Some(v)
            }
        },
        None => None,
    }
}

/// The page of a search: at most `limit` results (100000 when none is
/// given) from position `offset` (0 when none is given).
pub fn search_page(limit: Option<usize>, offset: Option<usize>) -> (res: (usize, usize))
    ensures
        res.0 == match limit {
            Some(l) => l,
            None => 100000,
        },
        res.1 == match offset {
            Some(o) => o,
            None => 0,
        },
{
    let l = match limit {
        Some(l) => l,
        None => 100000,
    };
    let o = match offset {
        Some(o) => o,
        None => 0,
    };
    (l, o)
}

/// How the index treats a field.
#[derive(Clone, Copy, PartialEq, Eq, Structural)]
pub enum FieldKind {
    Text,
    Tag,
    Numeric,
    /// A vector of 32-bit floats of this many dimensions, compared by
    /// cosine distance with a flat index.
    Vector { dimensions: usize },
}

/// A field of the album index: the JSON path it is read from, the
/// attribute it is searched under and how it is indexed.
pub struct IndexField {
    pub path: String,
    pub attribute: String,
    pub kind: FieldKind,
}

/// The view of a field.
pub open spec fn field_view(f: IndexField) -> (Seq<char>, Seq<char>, FieldKind) {
    (f.path@, f.attribute@, f.kind)
}

/// The fields of every album document.
pub open spec fn album_base_fields() -> Seq<(Seq<char>, Seq<char>, FieldKind)> {
    seq![
        ("$.name"@, "name"@, FieldKind::Text),
        ("$.file_name"@, "file_name"@, FieldKind::Tag),
        ("$.artists[*].name"@, "artist_name"@, FieldKind::Text),
        ("$.artists[*].ascii_name"@, "artist_ascii_name"@, FieldKind::Text),
        ("$.artists[*].file_name"@, "artist_file_name"@, FieldKind::Tag),
        ("$.rating"@, "rating"@, FieldKind::Numeric),
        ("$.rating_count"@, "rating_count"@, FieldKind::Numeric),
        ("$.primary_genres.*"@, "primary_genre"@, FieldKind::Tag),
        ("$.primary_genre_count"@, "primary_genre_count"@, FieldKind::Numeric),
        ("$.secondary_genres.*"@, "secondary_genre"@, FieldKind::Tag),
        ("$.secondary_genre_count"@, "secondary_genre_count"@, FieldKind::Numeric),
        ("$.descriptors.*"@, "descriptor"@, FieldKind::Tag),
        ("$.descriptor_count"@, "descriptor_count"@, FieldKind::Numeric),
        ("$.release_year"@, "release_year"@, FieldKind::Numeric),
        ("$.languages.*"@, "language"@, FieldKind::Tag),
        ("$.language_count"@, "language_count"@, FieldKind::Numeric),
        ("$.is_duplicate"@, "is_duplicate"@, FieldKind::Numeric),
        ("$.name_tag"@, "name_tag"@, FieldKind::Tag),
        ("$.ascii_name"@, "ascii_name"@, FieldKind::Text),
    ]
}

/// The field of a provider's embeddings.
pub open spec fn provider_field(provider: (String, usize)) -> (Seq<char>, Seq<char>, FieldKind) {
    (
        "$."@ + spec_embedding_json_key(provider.0@),
        spec_embedding_json_key(provider.0@),
        FieldKind::Vector { dimensions: provider.1 },
    )
}

fn push_field(schema: &mut Vec<IndexField>, path: &str, attribute: &str, kind: FieldKind)
    ensures
        final(schema)@.map_values(|f: IndexField| field_view(f)) == old(schema)@.map_values(
            |f: IndexField| field_view(f),
        ).push((path@, attribute@, kind)),
{
    let f = IndexField { path: path.to_owned(), attribute: attribute.to_owned(), kind };
    let ghost before = schema@;
    schema.push(f);
    proof {
        assert(schema@ =~= before.push(f));
        assert(schema@.map_values(|f: IndexField| field_view(f)) =~= before.map_values(
            |f: IndexField| field_view(f),
        ).push((path@, attribute@, kind)));
    }
}

/// The schema of the album index: the fields of every album document,
/// then one vector field per embedding provider `(name, dimensions)`.
pub fn get_schema(providers: &Vec<(String, usize)>) -> (res: Vec<IndexField>)
    ensures
        res@.map_values(|f: IndexField| field_view(f)) == album_base_fields() + providers@.map_values(
            |p: (String, usize)| provider_field(p),
        ),
{
    let mut schema: Vec<IndexField> = Vec::new();
    proof {
        assert(schema@.map_values(|f: IndexField| field_view(f)) =~= Seq::<(Seq<char>, Seq<char>, FieldKind)>::empty());
    }
    push_field(&mut schema, "$.name", "name", FieldKind::Text);
    push_field(&mut schema, "$.file_name", "file_name", FieldKind::Tag);
    push_field(&mut schema, "$.artists[*].name", "artist_name", FieldKind::Text);
    push_field(&mut schema, "$.artists[*].ascii_name", "artist_ascii_name", FieldKind::Text);
    push_field(&mut schema, "$.artists[*].file_name", "artist_file_name", FieldKind::Tag);
    push_field(&mut schema, "$.rating", "rating", FieldKind::Numeric);
    push_field(&mut schema, "$.rating_count", "rating_count", FieldKind::Numeric);
    push_field(&mut schema, "$.primary_genres.*", "primary_genre", FieldKind::Tag);
    push_field(&mut schema, "$.primary_genre_count", "primary_genre_count", FieldKind::Numeric);
    push_field(&mut schema, "$.secondary_genres.*", "secondary_genre", FieldKind::Tag);
    push_field(&mut schema, "$.secondary_genre_count", "secondary_genre_count", FieldKind::Numeric);
    push_field(&mut schema, "$.descriptors.*", "descriptor", FieldKind::Tag);
    push_field(&mut schema, "$.descriptor_count", "descriptor_count", FieldKind::Numeric);
    push_field(&mut schema, "$.release_year", "release_year", FieldKind::Numeric);
    push_field(&mut schema, "$.languages.*", "language", FieldKind::Tag);
    push_field(&mut schema, "$.language_count", "language_count", FieldKind::Numeric);
    push_field(&mut schema, "$.is_duplicate", "is_duplicate", FieldKind::Numeric);
    push_field(&mut schema, "$.name_tag", "name_tag", FieldKind::Tag);
    push_field(&mut schema, "$.ascii_name", "ascii_name", FieldKind::Text);
    proof {
        assert(schema@.map_values(|f: IndexField| field_view(f)) =~= album_base_fields());
    }
    let ghost base = album_base_fields();
    for i in 0..providers.len()
        invariant
            base == album_base_fields(),
            schema@.map_values(|f: IndexField| field_view(f)) == base + providers@.take(i as int).map_values(
                |p: (String, usize)| provider_field(p),
            ),
    {
        let name = &providers[i].0;
        let path = embedding_json_path(name.as_str());
        let attribute = embedding_json_key(name.as_str());
        let f = IndexField { path, attribute, kind: FieldKind::Vector { dimensions: providers[i].1 } };
        let ghost before = schema@;
        schema.push(f);
        proof {
            assert(schema@ =~= before.push(f));
            assert(providers@.take(i + 1) =~= providers@.take(i as int).push(providers@[i as int]));
            assert(schema@.map_values(|f: IndexField| field_view(f)) =~= before.map_values(
                |f: IndexField| field_view(f),
            ).push(provider_field(providers@[i as int])));
        }
    }
    proof {
        assert(providers@.take(providers@.len() as int) =~= providers@);
    }
    schema
}

/// Why a search result row is not an album.
pub enum SearchRowError {
    /// The rating count is not a `u32`.
    InvalidRatingCount,
    /// The release date is not a date that chrono reads as `%Y-%m-%d`.
    InvalidReleaseDate,
}

/// The JSON-encoded attributes of a search result row, as the application
/// decoded them; none where the row did not return the attribute.
pub struct SearchRowLists {
    pub artists: Option<Vec<AlbumReadModelArtist>>,
    pub primary_genres: Option<Vec<String>>,
    pub secondary_genres: Option<Vec<String>>,
    pub descriptors: Option<Vec<String>>,
    pub languages: Option<Vec<String>>,
    pub credits: Option<Vec<AlbumReadModelCredit>>,
    pub duplicates: Option<Vec<FileName>>,
}

/// The rating count a row gives: 0 where it gives none, none where its
/// text is not a `u32`.
pub open spec fn row_rating_count(value: Option<String>) -> Option<u32> {
    match value {
        Some(t) => spec_parse_u32(t@),
        None => Some(0),
    }
}

/// The release date a row gives, once read: none where it gives none or
/// an empty text.
pub open spec fn row_release_date_ok(value: Option<String>) -> bool {
    match value {
        Some(t) => t@.len() == 0 || spec_parse_release_date(t@) is Some,
        None => true,
    }
}

/// The release date a row gives.
pub open spec fn row_release_date(value: Option<String>) -> Option<CalendarDate> {
    match value {
        Some(t) => if t@.len() == 0 {
            None
        } else {
            spec_parse_release_date(t@)
        },
        None => None,
    }
}

/// A list a row gives, or the empty list.
pub open spec fn list_or_empty<T>(value: Option<Vec<T>>) -> Seq<T> {
    match value {
        Some(v) => v@,
        None => Seq::empty(),
    }
}

/// An optional text: none where absent or empty.
pub open spec fn nonempty_text(value: Option<String>) -> Option<Seq<char>> {
    match value {
        Some(v) => if v@.len() == 0 {
            None
        } else {
            Some(v@)
        },
        None => None,
    }
}

fn list_or_default<T>(value: Option<Vec<T>>) -> (res: Vec<T>)
    ensures
        res@ == list_or_empty(value),
{
    match value {
        Some(v) => v,
        None => Vec::new(),
    }
}

/// The album of a search result row: each attribute that the row returns,
/// read, and the default (empty text or list, 0, none) for each it does
/// not. A rating count that is not a `u32` is refused first, then a release
/// date that chrono does not read.
pub fn album_from_search_row(fields: &SearchRowFields, lists: SearchRowLists) -> (res: Result<AlbumReadModel, SearchRowError>)
    ensures
        row_rating_count(fields.rating_count) is None ==> res matches Err(SearchRowError::InvalidRatingCount),
        row_rating_count(fields.rating_count) is Some && !row_release_date_ok(fields.release_date)
            ==> res matches Err(SearchRowError::InvalidReleaseDate),
        row_rating_count(fields.rating_count) is Some && row_release_date_ok(fields.release_date) ==> (res matches Ok(a) && {
            &&& a.name@ == match fields.name { Some(n) => n@, None => Seq::<char>::empty() }
            &&& a.file_name@ == match fields.file_name { Some(f) => f@, None => Seq::<char>::empty() }
            &&& a.rating_count == row_rating_count(fields.rating_count).unwrap()
            &&& a.artists@ == list_or_empty(lists.artists)
            &&& a.primary_genres@ == list_or_empty(lists.primary_genres)
            &&& a.secondary_genres@ == list_or_empty(lists.secondary_genres)
            &&& a.descriptors@ == list_or_empty(lists.descriptors)
            &&& a.release_date == row_release_date(fields.release_date)
            &&& a.languages@ == list_or_empty(lists.languages)
            &&& a.credits@ == list_or_empty(lists.credits)
            &&& (match a.duplicate_of { Some(d) => Some(d@), None => None }) == nonempty_text(fields.duplicate_of)
            &&& a.duplicates@ == list_or_empty(lists.duplicates)
            &&& opt_view(a.cover_image_url) == nonempty_text(fields.cover_image_url)
        }),
{
    let rating_count: u32 = match &fields.rating_count {
        Some(t) => match parse_u32(t.as_str()) {
            Some(c) => c,
            None => {
                return Err(SearchRowError::InvalidRatingCount);
            },
        },
        None => 0,
    };
    let release_date = match &fields.release_date {
        Some(t) => if t.as_str().is_empty() {
            None
        } else {
            match release_date_from_text(t.as_str()) {
                Some(d) => Some(d),
                None => {
                    return Err(SearchRowError::InvalidReleaseDate);
                },
            }
        },
        None => None,
    };
    let name = match &fields.name {
        Some(n) => n.clone(),
        None => String::new(),
    };
    let file_name = match &fields.file_name {
        Some(f) => FileName(f.clone()),
        None => FileName(String::new()),
    };
    let duplicate_of = match &fields.duplicate_of {
        Some(d) => if d.as_str().is_empty() {
            None
        } else {
            Some(FileName(d.clone()))
        },
        None => None,
    };
    let cover_image_url = match &fields.cover_image_url {
        Some(c) => if c.as_str().is_empty() {
            None
        } else {
            Some(c.clone())
        },
        None => None,
    };
    Ok(AlbumReadModel {
        name,
        file_name,
        rating_count,
        artists: list_or_default(lists.artists),
        primary_genres: list_or_default(lists.primary_genres),
        secondary_genres: list_or_default(lists.secondary_genres),
        descriptors: list_or_default(lists.descriptors),
        release_date,
        languages: list_or_default(lists.languages),
        credits: list_or_default(lists.credits),
        duplicate_of,
        duplicates: list_or_default(lists.duplicates),
        cover_image_url,
    })
}

} // verus!
