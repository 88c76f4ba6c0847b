//! The artist search index: records, queries and their Elasticsearch form.
use crate::albums::redis_album_search_index::file_names_view;
use crate::es_query::{
    EsClause, EsClauseView, EsQuery, RangeBound, bool_query, clause_if, clauses_view,
    lemma_clause_seq_contains, push_clause, push_terms_if_any, spec_bool_query, texts,
};
use crate::artists::artist_read_model::ArtistOverview;
use crate::file_name::{FileName, file_names_to_strings};
use crate::item_with_factor::ItemWithFactor;
use vstd::prelude::*;

verus! {

/// Filters of an artist search. Empty lists and `None` impose nothing.
pub struct ArtistSearchQuery {
    pub text: Option<String>,
    pub exclude_file_names: Vec<FileName>,
    pub include_primary_genres: Vec<String>,
    pub exclude_primary_genres: Vec<String>,
    pub include_secondary_genres: Vec<String>,
    pub exclude_secondary_genres: Vec<String>,
    pub include_credit_roles: Vec<String>,
    pub exclude_credit_roles: Vec<String>,
    pub active_years_range: Option<(u32, u32)>,
    pub min_album_count: Option<u32>,
}

pub open spec fn opt_text(o: Option<String>) -> Seq<char> {
    match o {
        Some(s) => s@,
        None => Seq::empty(),
    }
}

pub open spec fn range_start(o: Option<(u32, u32)>) -> nat {
    match o {
        Some(r) => r.0 as nat,
        None => 0,
    }
}

pub open spec fn range_end(o: Option<(u32, u32)>) -> nat {
    match o {
        Some(r) => r.1 as nat,
        None => 0,
    }
}

/// The clauses an artist must match, in order.
pub open spec fn spec_artist_es_must(q: ArtistSearchQuery) -> Seq<EsClauseView> {
    clause_if(
        q.text is Some,
        EsClauseView::Match { field: "name"@, query: opt_text(q.text), fuzziness: "AUTO"@ },
    ) + clause_if(
        q.active_years_range is Some,
        EsClauseView::Range {
            field: "min_year"@,
            bound: RangeBound::AtLeast,
            amount: range_start(q.active_years_range),
        },
    ) + clause_if(
        q.active_years_range is Some,
        EsClauseView::Range {
            field: "max_year"@,
            bound: RangeBound::AtMost,
            amount: range_end(q.active_years_range),
        },
    ) + clause_if(
        q.include_primary_genres@.len() > 0,
        EsClauseView::Terms {
            field: "primary_genres.keyword"@,
            values: texts(q.include_primary_genres@),
        },
    ) + clause_if(
        q.include_secondary_genres@.len() > 0,
        EsClauseView::Terms {
            field: "secondary_genres.keyword"@,
            values: texts(q.include_secondary_genres@),
        },
    ) + clause_if(
        q.include_credit_roles@.len() > 0,
        EsClauseView::Terms {
            field: "credit_roles.keyword"@,
            values: texts(q.include_credit_roles@),
        },
    )
}

/// The clauses an artist must not match, in order.
pub open spec fn spec_artist_es_must_not(q: ArtistSearchQuery) -> Seq<EsClauseView> {
    clause_if(
        q.exclude_file_names@.len() > 0,
        EsClauseView::Terms {
            field: "file_name.keyword"@,
            values: file_names_view(q.exclude_file_names@),
        },
    ) + clause_if(
        q.exclude_primary_genres@.len() > 0,
        EsClauseView::Terms {
            field: "primary_genres.keyword"@,
            values: texts(q.exclude_primary_genres@),
        },
    ) + clause_if(
        q.exclude_secondary_genres@.len() > 0,
        EsClauseView::Terms {
            field: "secondary_genres.keyword"@,
            values: texts(q.exclude_secondary_genres@),
        },
    ) + clause_if(
        q.exclude_credit_roles@.len() > 0,
        EsClauseView::Terms {
            field: "credit_roles.keyword"@,
            values: texts(q.exclude_credit_roles@),
        },
    )
}

/// The characters of `min_year`.
pub open spec fn min_year_field() -> Seq<char> {
    seq!['m', 'i', 'n', '_', 'y', 'e', 'a', 'r']
}

/// The characters of `max_year`.
pub open spec fn max_year_field() -> Seq<char> {
    seq!['m', 'a', 'x', '_', 'y', 'e', 'a', 'r']
}

/// The characters of `name`.
pub open spec fn name_field() -> Seq<char> {
    seq!['n', 'a', 'm', 'e']
}

/// The characters of `AUTO`.
pub open spec fn auto_field() -> Seq<char> {
    seq!['A', 'U', 'T', 'O']
}

/// The characters of `primary_genres.keyword`.
pub open spec fn primary_genres_keyword_field() -> Seq<char> {
    seq!['p', 'r', 'i', 'm', 'a', 'r', 'y', '_', 'g', 'e', 'n', 'r', 'e', 's', '.', 'k', 'e', 'y', 'w', 'o', 'r', 'd']
}

/// The characters of `secondary_genres.keyword`.
pub open spec fn secondary_genres_keyword_field() -> Seq<char> {
    seq!['s', 'e', 'c', 'o', 'n', 'd', 'a', 'r', 'y', '_', 'g', 'e', 'n', 'r', 'e', 's', '.', 'k', 'e', 'y', 'w', 'o', 'r', 'd']
}

/// The characters of `credit_roles.keyword`.
pub open spec fn credit_roles_keyword_field() -> Seq<char> {
    seq!['c', 'r', 'e', 'd', 'i', 't', '_', 'r', 'o', 'l', 'e', 's', '.', 'k', 'e', 'y', 'w', 'o', 'r', 'd']
}

/// The characters of `file_name.keyword`.
pub open spec fn file_name_keyword_field() -> Seq<char> {
    seq!['f', 'i', 'l', 'e', '_', 'n', 'a', 'm', 'e', '.', 'k', 'e', 'y', 'w', 'o', 'r', 'd']
}

/// An artist search over an active-years range `(s, e)` asks for artists
/// whose first year is at least `s` and whose last year is at most `e`:
/// artists active only outside the range never match. Without a range, no
/// clause bounds a year.
pub proof fn lemma_artist_query_years(q: ArtistSearchQuery)
    ensures
        q.active_years_range matches Some((start, end)) ==> {
            &&& spec_artist_es_must(q).contains(EsClauseView::Range { field: min_year_field(), bound: RangeBound::AtLeast, amount: start as nat })
            &&& spec_artist_es_must(q).contains(EsClauseView::Range { field: max_year_field(), bound: RangeBound::AtMost, amount: end as nat })
        },
        q.active_years_range is None ==> forall|i: int| 0 <= i < spec_artist_es_must(q).len() ==> !(#[trigger] spec_artist_es_must(q)[i] is Range),
{
    lemma_clause_seq_contains();
    reveal_strlit("min_year");
    reveal_strlit("max_year");
    assert("min_year"@ =~= min_year_field());
    assert("max_year"@ =~= max_year_field());
}

/// An artist search with a text asks for artists whose name matches it,
/// fuzzily; each included list asks for artists with one of its values in
/// the matching field.
pub proof fn lemma_artist_query_includes(q: ArtistSearchQuery)
    ensures
        q.text matches Some(t) ==> spec_artist_es_must(q).contains(
            EsClauseView::Match { field: name_field(), query: t@, fuzziness: auto_field() },
        ),
        q.include_primary_genres@.len() > 0 ==> spec_artist_es_must(q).contains(
            EsClauseView::Terms { field: primary_genres_keyword_field(), values: texts(q.include_primary_genres@) },
        ),
        q.include_secondary_genres@.len() > 0 ==> spec_artist_es_must(q).contains(
            EsClauseView::Terms { field: secondary_genres_keyword_field(), values: texts(q.include_secondary_genres@) },
        ),
        q.include_credit_roles@.len() > 0 ==> spec_artist_es_must(q).contains(
            EsClauseView::Terms { field: credit_roles_keyword_field(), values: texts(q.include_credit_roles@) },
        ),
{
    lemma_clause_seq_contains();
    reveal_strlit("name");
    reveal_strlit("AUTO");
    reveal_strlit("primary_genres.keyword");
    reveal_strlit("secondary_genres.keyword");
    reveal_strlit("credit_roles.keyword");
    assert("name"@ =~= name_field());
    assert("AUTO"@ =~= auto_field());
    assert("primary_genres.keyword"@ =~= primary_genres_keyword_field());
    assert("secondary_genres.keyword"@ =~= secondary_genres_keyword_field());
    assert("credit_roles.keyword"@ =~= credit_roles_keyword_field());
}

/// Each excluded list of an artist search keeps out the artists with one of
/// its values in the matching field: its clause is among those that must
/// not match.
pub proof fn lemma_artist_query_excludes(q: ArtistSearchQuery)
    ensures
        q.exclude_file_names@.len() > 0 ==> spec_artist_es_must_not(q).contains(
            EsClauseView::Terms { field: file_name_keyword_field(), values: file_names_view(q.exclude_file_names@) },
        ),
        q.exclude_primary_genres@.len() > 0 ==> spec_artist_es_must_not(q).contains(
            EsClauseView::Terms { field: primary_genres_keyword_field(), values: texts(q.exclude_primary_genres@) },
        ),
        q.exclude_secondary_genres@.len() > 0 ==> spec_artist_es_must_not(q).contains(
            EsClauseView::Terms { field: secondary_genres_keyword_field(), values: texts(q.exclude_secondary_genres@) },
        ),
        q.exclude_credit_roles@.len() > 0 ==> spec_artist_es_must_not(q).contains(
            EsClauseView::Terms { field: credit_roles_keyword_field(), values: texts(q.exclude_credit_roles@) },
        ),
{
    lemma_clause_seq_contains();
    reveal_strlit("file_name.keyword");
    reveal_strlit("primary_genres.keyword");
    reveal_strlit("secondary_genres.keyword");
    reveal_strlit("credit_roles.keyword");
    assert("file_name.keyword"@ =~= file_name_keyword_field());
    assert("primary_genres.keyword"@ =~= primary_genres_keyword_field());
    assert("secondary_genres.keyword"@ =~= secondary_genres_keyword_field());
    assert("credit_roles.keyword"@ =~= credit_roles_keyword_field());
}

impl ArtistSearchQuery {
    /// The Elasticsearch query for these filters: a boolean query over
    /// [`spec_artist_es_must`] and [`spec_artist_es_must_not`], or
    /// `match_all` when no filter that it reads is set.
    pub fn to_es_query(&self) -> (res: EsQuery)
        ensures
            res@ == spec_bool_query(spec_artist_es_must(*self), spec_artist_es_must_not(*self)),
    {
        let must = self.es_must();
        let must_not = self.es_must_not();
        bool_query(must, must_not)
    }

    fn es_must(&self) -> (must: Vec<EsClause>)
        ensures
            clauses_view(must@) == spec_artist_es_must(*self),
    {
        let mut must: Vec<EsClause> = Vec::new();
        let ghost m0 = clauses_view(must@);
        match &self.text {
            Some(text) => {
                push_clause(
                    &mut must,
                    EsClause::Match {
                        field: "name".to_string(),
                        query: text.clone(),
                        fuzziness: "AUTO".to_string(),
                    },
                );
            },
            None => {},
        }
        let ghost m1 = clauses_view(must@);
        match self.active_years_range {
            Some((start_year, end_year)) => {
                push_clause(
                    &mut must,
                    EsClause::Range {
                        field: "min_year".to_string(),
                        bound: RangeBound::AtLeast,
                        amount: start_year as u64,
                    },
                );
                push_clause(
                    &mut must,
                    EsClause::Range {
                        field: "max_year".to_string(),
                        bound: RangeBound::AtMost,
                        amount: end_year as u64,
                    },
                );
            },
            None => {},
        }
        let ghost m2 = clauses_view(must@);
        push_terms_if_any(&mut must, "primary_genres.keyword", &self.include_primary_genres);
        push_terms_if_any(&mut must, "secondary_genres.keyword", &self.include_secondary_genres);
        push_terms_if_any(&mut must, "credit_roles.keyword", &self.include_credit_roles);
        proof {
            assert(m1 =~= m0 + clause_if(
                self.text is Some,
                EsClauseView::Match {
                    field: "name"@,
                    query: opt_text(self.text),
                    fuzziness: "AUTO"@,
                },
            ));
            assert(m2 =~= m1 + clause_if(
                self.active_years_range is Some,
                EsClauseView::Range {
                    field: "min_year"@,
                    bound: RangeBound::AtLeast,
                    amount: range_start(self.active_years_range),
                },
            ) + clause_if(
                self.active_years_range is Some,
                EsClauseView::Range {
                    field: "max_year"@,
                    bound: RangeBound::AtMost,
                    amount: range_end(self.active_years_range),
                },
            ));
            assert(clauses_view(must@) =~= spec_artist_es_must(*self));
        }
        must
    }

    fn es_must_not(&self) -> (must_not: Vec<EsClause>)
        ensures
            clauses_view(must_not@) == spec_artist_es_must_not(*self),
    {
        let mut must_not: Vec<EsClause> = Vec::new();
        let exclude_file_names = file_names_to_strings(&self.exclude_file_names);
        proof {
            assert(texts(exclude_file_names@) =~= file_names_view(self.exclude_file_names@));
        }
        push_terms_if_any(&mut must_not, "file_name.keyword", &exclude_file_names);
        push_terms_if_any(&mut must_not, "primary_genres.keyword", &self.exclude_primary_genres);
        push_terms_if_any(
            &mut must_not,
            "secondary_genres.keyword",
            &self.exclude_secondary_genres,
        );
        push_terms_if_any(&mut must_not, "credit_roles.keyword", &self.exclude_credit_roles);
        proof {
            assert(clauses_view(must_not@) =~= spec_artist_es_must_not(*self));
        }
        must_not
    }
}

/// What the artist index holds of an artist.
pub struct ArtistSearchRecord {
    pub name: String,
    pub file_name: String,
    pub total_rating_count: u32,
    pub min_year: u32,
    pub max_year: u32,
    pub album_count: u32,
    pub credit_roles: Vec<String>,
    pub primary_genres: Vec<String>,
    pub creditted_primary_genres: Vec<String>,
    pub secondary_genres: Vec<String>,
    pub creditted_secondary_genres: Vec<String>,
}

/// A page of artist search results and the number of all matches.
pub struct ArtistSearchResult {
    pub artists: Vec<ArtistSearchRecord>,
    pub total: usize,
}

/// The name of the Elasticsearch index that holds artists.
pub const INDEX_NAME: &'static str = "artists";

/// The artist index of an Elasticsearch cluster reached through `client`.
pub struct ArtistSearchIndex<C> {
    pub client: C,
    pub index_name: String,
}

impl<C> ArtistSearchIndex<C> {
    /// The artist index on the given client.
    pub fn new(client: C) -> (res: Self)
        ensures
            res.client == client,
            res.index_name@ == INDEX_NAME@,
    {
        ArtistSearchIndex { client, index_name: INDEX_NAME.to_string() }
    }
}

/// The earlier of two years where 0 stands for no year: the other one if
/// either is 0, else the smaller.
pub open spec fn spec_min_year_of(left: u32, right: u32) -> u32 {
    if left == 0 {
        right
    } else if right == 0 {
        left
    } else if left <= right {
        left
    } else {
        right
    }
}

/// The earlier of two years, where 0 stands for no year.
pub fn get_min_year(left: u32, right: u32) -> (res: u32)
    ensures
        res == spec_min_year_of(left, right),
{
    if left == 0 {
        right
    } else if right == 0 {
        left
    } else if left <= right {
        left
    } else {
        right
    }
}

/// The items of a ranked list, in order.
pub open spec fn item_names(items: Seq<ItemWithFactor>) -> Seq<Seq<char>> {
    items.map_values(|i: ItemWithFactor| i.item@)
}

fn items_of(items: Vec<ItemWithFactor>) -> (res: Vec<String>)
    ensures
        res@.map_values(|s: String| s@) == item_names(items@),
{
    let mut res: Vec<String> = Vec::new();
    for i in 0..items.len()
        invariant
            res@.map_values(|s: String| s@) == item_names(items@.take(i as int)),
    {
        let ghost before = res@;
        let s = items[i].item.clone();
        res.push(s);
        proof {
            assert(res@ =~= before.push(s));
            assert(res@.map_values(|s: String| s@) =~= before.map_values(|s: String| s@).push(s@));
            assert(items@.take(i + 1) =~= items@.take(i as int).push(items@[i as int]));
            assert(item_names(items@.take(i + 1)) =~= item_names(items@.take(i as int)).push(
                items@[i as int].item@,
            ));
        }
    }
    proof {
        assert(items@.take(items@.len() as int) =~= items@);
    }
    res
}

impl ArtistSearchRecord {
    /// The search record of an overview: the rating counts of both
    /// summaries added, the earliest and latest years over both, the own
    /// albums counted, and the names of the ranked lists.
    pub fn from_overview(overview: ArtistOverview) -> (res: Self)
        requires
            overview.album_summary.total_rating_count + overview.credited_album_summary.total_rating_count
                <= u32::MAX,
        ensures
            res.name@ == overview.name@,
            res.file_name@ == overview.file_name@,
            res.total_rating_count == overview.album_summary.total_rating_count
                + overview.credited_album_summary.total_rating_count,
            res.min_year == spec_min_year_of(
                overview.album_summary.min_year,
                overview.credited_album_summary.min_year,
            ),
            res.max_year == if overview.album_summary.max_year >= overview.credited_album_summary.max_year {
                overview.album_summary.max_year
            } else {
                overview.credited_album_summary.max_year
            },
            res.album_count == overview.album_summary.album_count,
            res.credit_roles@.map_values(|s: String| s@) == item_names(overview.credit_roles@),
            res.primary_genres@.map_values(|s: String| s@) == item_names(overview.album_summary.primary_genres@),
            res.creditted_primary_genres@.map_values(|s: String| s@) == item_names(
                overview.credited_album_summary.primary_genres@,
            ),
            res.secondary_genres@.map_values(|s: String| s@) == item_names(overview.album_summary.secondary_genres@),
            res.creditted_secondary_genres@.map_values(|s: String| s@) == item_names(
                overview.credited_album_summary.secondary_genres@,
            ),
    {
        let own = overview.album_summary;
        let credited = overview.credited_album_summary;
        let max_year = if own.max_year >= credited.max_year {
            own.max_year
        } else {
            credited.max_year
        };
        ArtistSearchRecord {
            name: overview.name,
            file_name: overview.file_name.0,
            total_rating_count: own.total_rating_count + credited.total_rating_count,
            min_year: get_min_year(own.min_year, credited.min_year),
            max_year,
            album_count: own.album_count,
            credit_roles: items_of(overview.credit_roles),
            primary_genres: items_of(own.primary_genres),
            creditted_primary_genres: items_of(credited.primary_genres),
            secondary_genres: items_of(own.secondary_genres),
            creditted_secondary_genres: items_of(credited.secondary_genres),
        }
    }
}

} // verus!
