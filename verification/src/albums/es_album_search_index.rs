//! Elasticsearch queries for the album index.
use crate::albums::album_search_index::AlbumSearchQuery;
use crate::albums::redis_album_search_index::file_names_view;
use crate::es_query::{
    EsClause, EsClauseView, EsQuery, EsQueryView, RangeBound, bool_query, clause_if,
    clauses_view, lemma_clause_seq_contains, opt_amount, opt_u32_to_u64, opt_usize_to_u64, push_clause, push_range_if_some,
    push_terms_if_any, spec_bool_query, texts,
};
use crate::file_name::file_names_to_strings;
use vstd::prelude::*;

verus! {

/// The name of the Elasticsearch index that holds albums.
pub const INDEX_NAME: &'static str = "albums";

/// The album index of an Elasticsearch cluster reached through `client`.
pub struct EsAlbumSearchIndex<C> {
    pub client: C,
    pub index_name: String,
}

impl<C> EsAlbumSearchIndex<C> {
    /// The album index on the given client.
    pub fn new(client: C) -> (res: Self)
        ensures
            res.client == client,
            res.index_name@ == INDEX_NAME@,
    {
        EsAlbumSearchIndex { client, index_name: INDEX_NAME.to_string() }
    }
}

pub open spec fn text_of(o: Option<String>) -> Seq<char> {
    match o {
        Some(s) => s@,
        None => Seq::empty(),
    }
}

pub open spec fn count_of(o: Option<usize>) -> nat {
    match o {
        Some(c) => c as nat,
        None => 0,
    }
}

pub open spec fn year_of(o: Option<u32>) -> nat {
    match o {
        Some(y) => y as nat,
        None => 0,
    }
}

/// The clauses an album must match, in order.
pub open spec fn spec_album_es_must(q: AlbumSearchQuery) -> Seq<EsClauseView> {
    spec_album_es_must_terms(q) + spec_album_es_must_bounds(q)
}

/// The text and term clauses an album must match.
pub open spec fn spec_album_es_must_terms(q: AlbumSearchQuery) -> Seq<EsClauseView> {
    clause_if(
        q.text is Some,
        EsClauseView::MultiMatch {
            query: text_of(q.text),
            fields: seq!["name"@, "artists.name"@],
            fuzziness: "AUTO"@,
        },
    ) + clause_if(
        q.exact_name is Some,
        EsClauseView::Term { field: "name.keyword"@, value: text_of(q.exact_name) },
    ) + clause_if(
        q.include_file_names@.len() > 0,
        EsClauseView::Terms {
            field: "file_name.keyword"@,
            values: file_names_view(q.include_file_names@),
        },
    ) + clause_if(
        q.include_artists@.len() > 0,
        EsClauseView::Terms {
            field: "artists.name.keyword"@,
            values: file_names_view(q.include_artists@),
        },
    ) + clause_if(
        q.include_primary_genres@.len() > 0,
        EsClauseView::Terms {
            field: "primary_genres.keyword"@,
            values: texts(q.include_primary_genres@),
        },
    ) + clause_if(
        q.include_secondary_genres@.len() > 0,
        EsClauseView::Terms {
            field: "secondary_genres.keyword"@,
            values: texts(q.include_secondary_genres@),
        },
    ) + clause_if(
        q.include_languages@.len() > 0,
        EsClauseView::Terms { field: "languages.keyword"@, values: texts(q.include_languages@) },
    ) + clause_if(
        q.include_descriptors@.len() > 0,
        EsClauseView::Terms {
            field: "descriptors.keyword"@,
            values: texts(q.include_descriptors@),
        },
    )
}

/// The count, year and duplicate clauses an album must match.
pub open spec fn spec_album_es_must_bounds(q: AlbumSearchQuery) -> Seq<EsClauseView> {
    clause_if(
        q.min_primary_genre_count is Some,
        EsClauseView::Range {
            field: "primary_genre_count"@,
            bound: RangeBound::AtLeast,
            amount: count_of(q.min_primary_genre_count),
        },
    ) + clause_if(
        q.min_secondary_genre_count is Some,
        EsClauseView::Range {
            field: "secondary_genre_count"@,
            bound: RangeBound::AtLeast,
            amount: count_of(q.min_secondary_genre_count),
        },
    ) + clause_if(
        q.min_descriptor_count is Some,
        EsClauseView::Range {
            field: "descriptor_count"@,
            bound: RangeBound::AtLeast,
            amount: count_of(q.min_descriptor_count),
        },
    ) + clause_if(
        q.min_release_year is Some,
        EsClauseView::Range {
            field: "release_year"@,
            bound: RangeBound::AtLeast,
            amount: year_of(q.min_release_year),
        },
    ) + clause_if(
        q.max_release_year is Some,
        EsClauseView::Range {
            field: "release_year"@,
            bound: RangeBound::AtMost,
            amount: year_of(q.max_release_year),
        },
    ) + clause_if(
        q.include_duplicates == Some(true),
        EsClauseView::Exists { field: "duplicate_of"@ },
    )
}

/// The clauses an album must not match, in order.
pub open spec fn spec_album_es_must_not(q: AlbumSearchQuery) -> Seq<EsClauseView> {
    clause_if(
        q.exclude_file_names@.len() > 0,
        EsClauseView::Terms {
            field: "file_name.keyword"@,
            values: file_names_view(q.exclude_file_names@),
        },
    ) + clause_if(
        q.exclude_artists@.len() > 0,
        EsClauseView::Terms {
            field: "artists.name.keyword"@,
            values: file_names_view(q.exclude_artists@),
        },
    ) + clause_if(
        q.exclude_primary_genres@.len() > 0,
        EsClauseView::Terms {
            field: "primary_genres.keyword"@,
            values: texts(q.exclude_primary_genres@),
        },
    ) + clause_if(
        q.exclude_secondary_genres@.len() > 0,
        EsClauseView::Terms {
            field: "secondary_genres.keyword"@,
            values: texts(q.exclude_secondary_genres@),
        },
    ) + clause_if(
        q.exclude_languages@.len() > 0,
        EsClauseView::Terms { field: "languages.keyword"@, values: texts(q.exclude_languages@) },
    ) + clause_if(
        q.exclude_descriptors@.len() > 0,
        EsClauseView::Terms {
            field: "descriptors.keyword"@,
            values: texts(q.exclude_descriptors@),
        },
    )
}

/// The characters of `name`.
pub open spec fn name_field() -> Seq<char> {
    seq!['n', 'a', 'm', 'e']
}

/// The characters of `artists.name`.
pub open spec fn artists_name_field() -> Seq<char> {
    seq!['a', 'r', 't', 'i', 's', 't', 's', '.', 'n', 'a', 'm', 'e']
}

/// The characters of `AUTO`.
pub open spec fn auto_field() -> Seq<char> {
    seq!['A', 'U', 'T', 'O']
}

/// The characters of `name.keyword`.
pub open spec fn name_keyword_field() -> Seq<char> {
    seq!['n', 'a', 'm', 'e', '.', 'k', 'e', 'y', 'w', 'o', 'r', 'd']
}

/// The characters of `file_name.keyword`.
pub open spec fn file_name_keyword_field() -> Seq<char> {
    seq!['f', 'i', 'l', 'e', '_', 'n', 'a', 'm', 'e', '.', 'k', 'e', 'y', 'w', 'o', 'r', 'd']
}

/// The characters of `artists.name.keyword`.
pub open spec fn artists_name_keyword_field() -> Seq<char> {
    seq!['a', 'r', 't', 'i', 's', 't', 's', '.', 'n', 'a', 'm', 'e', '.', 'k', 'e', 'y', 'w', 'o', 'r', 'd']
}

/// The characters of `primary_genres.keyword`.
pub open spec fn primary_genres_keyword_field() -> Seq<char> {
    seq!['p', 'r', 'i', 'm', 'a', 'r', 'y', '_', 'g', 'e', 'n', 'r', 'e', 's', '.', 'k', 'e', 'y', 'w', 'o', 'r', 'd']
}

/// The characters of `secondary_genres.keyword`.
pub open spec fn secondary_genres_keyword_field() -> Seq<char> {
    seq!['s', 'e', 'c', 'o', 'n', 'd', 'a', 'r', 'y', '_', 'g', 'e', 'n', 'r', 'e', 's', '.', 'k', 'e', 'y', 'w', 'o', 'r', 'd']
}

/// The characters of `languages.keyword`.
pub open spec fn languages_keyword_field() -> Seq<char> {
    seq!['l', 'a', 'n', 'g', 'u', 'a', 'g', 'e', 's', '.', 'k', 'e', 'y', 'w', 'o', 'r', 'd']
}

/// The characters of `descriptors.keyword`.
pub open spec fn descriptors_keyword_field() -> Seq<char> {
    seq!['d', 'e', 's', 'c', 'r', 'i', 'p', 't', 'o', 'r', 's', '.', 'k', 'e', 'y', 'w', 'o', 'r', 'd']
}

/// The characters of `primary_genre_count`.
pub open spec fn primary_genre_count_field() -> Seq<char> {
    seq!['p', 'r', 'i', 'm', 'a', 'r', 'y', '_', 'g', 'e', 'n', 'r', 'e', '_', 'c', 'o', 'u', 'n', 't']
}

/// The characters of `secondary_genre_count`.
pub open spec fn secondary_genre_count_field() -> Seq<char> {
    seq!['s', 'e', 'c', 'o', 'n', 'd', 'a', 'r', 'y', '_', 'g', 'e', 'n', 'r', 'e', '_', 'c', 'o', 'u', 'n', 't']
}

/// The characters of `descriptor_count`.
pub open spec fn descriptor_count_field() -> Seq<char> {
    seq!['d', 'e', 's', 'c', 'r', 'i', 'p', 't', 'o', 'r', '_', 'c', 'o', 'u', 'n', 't']
}

/// The characters of `release_year`.
pub open spec fn release_year_field() -> Seq<char> {
    seq!['r', 'e', 'l', 'e', 'a', 's', 'e', '_', 'y', 'e', 'a', 'r']
}

/// The characters of `duplicate_of`.
pub open spec fn duplicate_of_field() -> Seq<char> {
    seq!['d', 'u', 'p', 'l', 'i', 'c', 'a', 't', 'e', '_', 'o', 'f']
}

/// Each filter of an album search that must hold puts its clause among
/// those an album must match: a text matches the name or the artists'
/// names fuzzily, an exact name matches the name, and each included list
/// asks for one of its values in the matching field.
pub proof fn lemma_album_es_includes(q: AlbumSearchQuery)
    ensures
        q.text matches Some(t) ==> spec_album_es_must(q).contains(
            EsClauseView::MultiMatch { query: t@, fields: seq![name_field(), artists_name_field()], fuzziness: auto_field() },
        ),
        q.exact_name matches Some(n) ==> spec_album_es_must(q).contains(
            EsClauseView::Term { field: name_keyword_field(), value: n@ },
        ),
        q.include_file_names@.len() > 0 ==> spec_album_es_must(q).contains(
            EsClauseView::Terms { field: file_name_keyword_field(), values: file_names_view(q.include_file_names@) },
        ),
        q.include_artists@.len() > 0 ==> spec_album_es_must(q).contains(
            EsClauseView::Terms { field: artists_name_keyword_field(), values: file_names_view(q.include_artists@) },
        ),
        q.include_primary_genres@.len() > 0 ==> spec_album_es_must(q).contains(
            EsClauseView::Terms { field: primary_genres_keyword_field(), values: texts(q.include_primary_genres@) },
        ),
        q.include_secondary_genres@.len() > 0 ==> spec_album_es_must(q).contains(
            EsClauseView::Terms { field: secondary_genres_keyword_field(), values: texts(q.include_secondary_genres@) },
        ),
        q.include_languages@.len() > 0 ==> spec_album_es_must(q).contains(
            EsClauseView::Terms { field: languages_keyword_field(), values: texts(q.include_languages@) },
        ),
        q.include_descriptors@.len() > 0 ==> spec_album_es_must(q).contains(
            EsClauseView::Terms { field: descriptors_keyword_field(), values: texts(q.include_descriptors@) },
        ),
{
    lemma_clause_seq_contains();
    reveal_strlit("name");
    assert("name"@ =~= name_field());
    reveal_strlit("artists.name");
    assert("artists.name"@ =~= artists_name_field());
    reveal_strlit("AUTO");
    assert("AUTO"@ =~= auto_field());
    reveal_strlit("name.keyword");
    assert("name.keyword"@ =~= name_keyword_field());
    reveal_strlit("file_name.keyword");
    assert("file_name.keyword"@ =~= file_name_keyword_field());
    reveal_strlit("artists.name.keyword");
    assert("artists.name.keyword"@ =~= artists_name_keyword_field());
    reveal_strlit("primary_genres.keyword");
    assert("primary_genres.keyword"@ =~= primary_genres_keyword_field());
    reveal_strlit("secondary_genres.keyword");
    assert("secondary_genres.keyword"@ =~= secondary_genres_keyword_field());
    reveal_strlit("languages.keyword");
    assert("languages.keyword"@ =~= languages_keyword_field());
    reveal_strlit("descriptors.keyword");
    assert("descriptors.keyword"@ =~= descriptors_keyword_field());
    reveal_strlit("primary_genre_count");
    assert("primary_genre_count"@ =~= primary_genre_count_field());
    reveal_strlit("secondary_genre_count");
    assert("secondary_genre_count"@ =~= secondary_genre_count_field());
    reveal_strlit("descriptor_count");
    assert("descriptor_count"@ =~= descriptor_count_field());
    reveal_strlit("release_year");
    assert("release_year"@ =~= release_year_field());
    reveal_strlit("duplicate_of");
    assert("duplicate_of"@ =~= duplicate_of_field());
}

/// Each bound of an album search is a range clause that an album must
/// match: minimum counts and the earliest year bound from below, the latest
/// year from above; asking for duplicates asks for albums that are a
/// duplicate of another.
pub proof fn lemma_album_es_bounds(q: AlbumSearchQuery)
    ensures
        q.min_primary_genre_count matches Some(c) ==> spec_album_es_must(q).contains(
            EsClauseView::Range { field: primary_genre_count_field(), bound: RangeBound::AtLeast, amount: c as nat },
        ),
        q.min_secondary_genre_count matches Some(c) ==> spec_album_es_must(q).contains(
            EsClauseView::Range { field: secondary_genre_count_field(), bound: RangeBound::AtLeast, amount: c as nat },
        ),
        q.min_descriptor_count matches Some(c) ==> spec_album_es_must(q).contains(
            EsClauseView::Range { field: descriptor_count_field(), bound: RangeBound::AtLeast, amount: c as nat },
        ),
        q.min_release_year matches Some(y) ==> spec_album_es_must(q).contains(
            EsClauseView::Range { field: release_year_field(), bound: RangeBound::AtLeast, amount: y as nat },
        ),
        q.max_release_year matches Some(y) ==> spec_album_es_must(q).contains(
            EsClauseView::Range { field: release_year_field(), bound: RangeBound::AtMost, amount: y as nat },
        ),
        q.include_duplicates == Some(true) ==> spec_album_es_must(q).contains(
            EsClauseView::Exists { field: duplicate_of_field() },
        ),
{
    lemma_clause_seq_contains();
    reveal_strlit("name");
    assert("name"@ =~= name_field());
    reveal_strlit("artists.name");
    assert("artists.name"@ =~= artists_name_field());
    reveal_strlit("AUTO");
    assert("AUTO"@ =~= auto_field());
    reveal_strlit("name.keyword");
    assert("name.keyword"@ =~= name_keyword_field());
    reveal_strlit("file_name.keyword");
    assert("file_name.keyword"@ =~= file_name_keyword_field());
    reveal_strlit("artists.name.keyword");
    assert("artists.name.keyword"@ =~= artists_name_keyword_field());
    reveal_strlit("primary_genres.keyword");
    assert("primary_genres.keyword"@ =~= primary_genres_keyword_field());
    reveal_strlit("secondary_genres.keyword");
    assert("secondary_genres.keyword"@ =~= secondary_genres_keyword_field());
    reveal_strlit("languages.keyword");
    assert("languages.keyword"@ =~= languages_keyword_field());
    reveal_strlit("descriptors.keyword");
    assert("descriptors.keyword"@ =~= descriptors_keyword_field());
    reveal_strlit("primary_genre_count");
    assert("primary_genre_count"@ =~= primary_genre_count_field());
    reveal_strlit("secondary_genre_count");
    assert("secondary_genre_count"@ =~= secondary_genre_count_field());
    reveal_strlit("descriptor_count");
    assert("descriptor_count"@ =~= descriptor_count_field());
    reveal_strlit("release_year");
    assert("release_year"@ =~= release_year_field());
    reveal_strlit("duplicate_of");
    assert("duplicate_of"@ =~= duplicate_of_field());
}

/// Each excluded list of an album search keeps out the albums with one of
/// its values in the matching field: its clause is among those that must
/// not match.
pub proof fn lemma_album_es_excludes(q: AlbumSearchQuery)
    ensures
        q.exclude_file_names@.len() > 0 ==> spec_album_es_must_not(q).contains(
            EsClauseView::Terms { field: file_name_keyword_field(), values: file_names_view(q.exclude_file_names@) },
        ),
        q.exclude_artists@.len() > 0 ==> spec_album_es_must_not(q).contains(
            EsClauseView::Terms { field: artists_name_keyword_field(), values: file_names_view(q.exclude_artists@) },
        ),
        q.exclude_primary_genres@.len() > 0 ==> spec_album_es_must_not(q).contains(
            EsClauseView::Terms { field: primary_genres_keyword_field(), values: texts(q.exclude_primary_genres@) },
        ),
        q.exclude_secondary_genres@.len() > 0 ==> spec_album_es_must_not(q).contains(
            EsClauseView::Terms { field: secondary_genres_keyword_field(), values: texts(q.exclude_secondary_genres@) },
        ),
        q.exclude_languages@.len() > 0 ==> spec_album_es_must_not(q).contains(
            EsClauseView::Terms { field: languages_keyword_field(), values: texts(q.exclude_languages@) },
        ),
        q.exclude_descriptors@.len() > 0 ==> spec_album_es_must_not(q).contains(
            EsClauseView::Terms { field: descriptors_keyword_field(), values: texts(q.exclude_descriptors@) },
        ),
{
    lemma_clause_seq_contains();
    reveal_strlit("name");
    assert("name"@ =~= name_field());
    reveal_strlit("artists.name");
    assert("artists.name"@ =~= artists_name_field());
    reveal_strlit("AUTO");
    assert("AUTO"@ =~= auto_field());
    reveal_strlit("name.keyword");
    assert("name.keyword"@ =~= name_keyword_field());
    reveal_strlit("file_name.keyword");
    assert("file_name.keyword"@ =~= file_name_keyword_field());
    reveal_strlit("artists.name.keyword");
    assert("artists.name.keyword"@ =~= artists_name_keyword_field());
    reveal_strlit("primary_genres.keyword");
    assert("primary_genres.keyword"@ =~= primary_genres_keyword_field());
    reveal_strlit("secondary_genres.keyword");
    assert("secondary_genres.keyword"@ =~= secondary_genres_keyword_field());
    reveal_strlit("languages.keyword");
    assert("languages.keyword"@ =~= languages_keyword_field());
    reveal_strlit("descriptors.keyword");
    assert("descriptors.keyword"@ =~= descriptors_keyword_field());
    reveal_strlit("primary_genre_count");
    assert("primary_genre_count"@ =~= primary_genre_count_field());
    reveal_strlit("secondary_genre_count");
    assert("secondary_genre_count"@ =~= secondary_genre_count_field());
    reveal_strlit("descriptor_count");
    assert("descriptor_count"@ =~= descriptor_count_field());
    reveal_strlit("release_year");
    assert("release_year"@ =~= release_year_field());
    reveal_strlit("duplicate_of");
    assert("duplicate_of"@ =~= duplicate_of_field());
}

impl AlbumSearchQuery {
    /// The Elasticsearch query for these filters: a boolean query over
    /// [`spec_album_es_must`] and [`spec_album_es_must_not`], or `match_all`
    /// when no filter is set.
    pub fn to_es_query(&self) -> (res: EsQuery)
        ensures
            res@ == spec_bool_query(spec_album_es_must(*self), spec_album_es_must_not(*self)),
    {
        let mut must = self.es_must_terms();
        self.push_es_must_bounds(&mut must);
        let must_not = self.es_must_not();
        bool_query(must, must_not)
    }

    fn es_must_terms(&self) -> (must: Vec<EsClause>)
        ensures
            clauses_view(must@) == spec_album_es_must_terms(*self),
    {
        let mut must: Vec<EsClause> = Vec::new();
        let ghost m0 = clauses_view(must@);
        match &self.text {
            Some(text) => {
                let fields = vec!["name".to_string(), "artists.name".to_string()];
                proof {
                    assert(texts(fields@) =~= seq!["name"@, "artists.name"@]);
                }
                push_clause(
                    &mut must,
                    EsClause::MultiMatch {
                        query: text.clone(),
                        fields,
                        fuzziness: "AUTO".to_string(),
                    },
                );
            },
            None => {},
        }
        let ghost m1 = clauses_view(must@);
        match &self.exact_name {
            Some(name) => {
                push_clause(
                    &mut must,
                    EsClause::Term { field: "name.keyword".to_string(), value: name.clone() },
                );
            },
            None => {},
        }
        let ghost m2 = clauses_view(must@);
        proof {
            assert(m1 =~= m0 + clause_if(
                self.text is Some,
                EsClauseView::MultiMatch {
                    query: text_of(self.text),
                    fields: seq!["name"@, "artists.name"@],
                    fuzziness: "AUTO"@,
                },
            ));
            assert(m2 =~= m1 + clause_if(
                self.exact_name is Some,
                EsClauseView::Term { field: "name.keyword"@, value: text_of(self.exact_name) },
            ));
        }
        let include_file_names = file_names_to_strings(&self.include_file_names);
        proof {
            assert(texts(include_file_names@) =~= file_names_view(self.include_file_names@));
        }
        push_terms_if_any(&mut must, "file_name.keyword", &include_file_names);
        let include_artists = file_names_to_strings(&self.include_artists);
        proof {
            assert(texts(include_artists@) =~= file_names_view(self.include_artists@));
        }
        push_terms_if_any(&mut must, "artists.name.keyword", &include_artists);
        push_terms_if_any(&mut must, "primary_genres.keyword", &self.include_primary_genres);
        push_terms_if_any(&mut must, "secondary_genres.keyword", &self.include_secondary_genres);
        push_terms_if_any(&mut must, "languages.keyword", &self.include_languages);
        push_terms_if_any(&mut must, "descriptors.keyword", &self.include_descriptors);
        proof {
            assert(clauses_view(must@) =~= spec_album_es_must_terms(*self));
        }
        must
    }

    fn push_es_must_bounds(&self, must: &mut Vec<EsClause>)
        ensures
            clauses_view(final(must)@) == clauses_view(old(must)@) + spec_album_es_must_bounds(
                *self,
            ),
    {
        let ghost m0 = clauses_view(must@);
        let a = opt_usize_to_u64(self.min_primary_genre_count);
        push_range_if_some(must, "primary_genre_count", RangeBound::AtLeast, a);
        let ghost m1 = clauses_view(must@);
        let b = opt_usize_to_u64(self.min_secondary_genre_count);
        push_range_if_some(must, "secondary_genre_count", RangeBound::AtLeast, b);
        let ghost m2 = clauses_view(must@);
        let c = opt_usize_to_u64(self.min_descriptor_count);
        push_range_if_some(must, "descriptor_count", RangeBound::AtLeast, c);
        let ghost m3 = clauses_view(must@);
        let d = opt_u32_to_u64(self.min_release_year);
        push_range_if_some(must, "release_year", RangeBound::AtLeast, d);
        let ghost m4 = clauses_view(must@);
        let e = opt_u32_to_u64(self.max_release_year);
        push_range_if_some(must, "release_year", RangeBound::AtMost, e);
        let ghost m5 = clauses_view(must@);
        let include_duplicates = match self.include_duplicates {
            Some(b) => b,
            None => false,
        };
        if include_duplicates {
            push_clause(must, EsClause::Exists { field: "duplicate_of".to_string() });
        }
        proof {
            assert(opt_amount(a) == count_of(self.min_primary_genre_count));
            assert(opt_amount(b) == count_of(self.min_secondary_genre_count));
            assert(opt_amount(c) == count_of(self.min_descriptor_count));
            assert(opt_amount(d) == year_of(self.min_release_year));
            assert(opt_amount(e) == year_of(self.max_release_year));
            assert(clauses_view(must@) =~= m5 + clause_if(
                self.include_duplicates == Some(true),
                EsClauseView::Exists { field: "duplicate_of"@ },
            ));
            assert(clauses_view(must@) =~= m0 + spec_album_es_must_bounds(*self));
        }
    }

    fn es_must_not(&self) -> (must_not: Vec<EsClause>)
        ensures
            clauses_view(must_not@) == spec_album_es_must_not(*self),
    {
        let mut must_not: Vec<EsClause> = Vec::new();
        let exclude_file_names = file_names_to_strings(&self.exclude_file_names);
        proof {
            assert(texts(exclude_file_names@) =~= file_names_view(self.exclude_file_names@));
        }
        push_terms_if_any(&mut must_not, "file_name.keyword", &exclude_file_names);
        let exclude_artists = file_names_to_strings(&self.exclude_artists);
        proof {
            assert(texts(exclude_artists@) =~= file_names_view(self.exclude_artists@));
        }
        push_terms_if_any(&mut must_not, "artists.name.keyword", &exclude_artists);
        push_terms_if_any(&mut must_not, "primary_genres.keyword", &self.exclude_primary_genres);
        push_terms_if_any(
            &mut must_not,
            "secondary_genres.keyword",
            &self.exclude_secondary_genres,
        );
        push_terms_if_any(&mut must_not, "languages.keyword", &self.exclude_languages);
        push_terms_if_any(&mut must_not, "descriptors.keyword", &self.exclude_descriptors);
        proof {
            assert(clauses_view(must_not@) =~= spec_album_es_must_not(*self));
        }
        must_not
    }
}

} // verus!
