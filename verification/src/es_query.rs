//! The shape of the Elasticsearch queries the search indexes send: a boolean
//! query over leaf clauses, or `match_all`.
use vstd::prelude::*;

verus! {

/// Which side of a range clause is bounded.
#[derive(Clone, Copy, PartialEq, Eq, Structural)]
pub enum RangeBound {
    /// `gte`: the field is at least the value.
    AtLeast,
    /// `lte`: the field is at most the value.
    AtMost,
}

/// A leaf clause of a boolean query.
pub enum EsClause {
    /// `{"multi_match": {"query": .., "fields": [..], "fuzziness": ..}}`
    MultiMatch { query: String, fields: Vec<String>, fuzziness: String },
    /// `{"match": {field: {"query": .., "fuzziness": ..}}}`
    Match { field: String, query: String, fuzziness: String },
    /// `{"term": {field: value}}`
    Term { field: String, value: String },
    /// `{"terms": {field: [values]}}`
    Terms { field: String, values: Vec<String> },
    /// `{"range": {field: {"gte" or "lte": amount}}}`
    Range { field: String, bound: RangeBound, amount: u64 },
    /// `{"exists": {"field": field}}`
    Exists { field: String },
}

/// A whole query.
pub enum EsQuery {
    /// `{"match_all": {}}`
    MatchAll,
    /// `{"bool": {"must": [..], "must_not": [..]}}`
    Bool { must: Vec<EsClause>, must_not: Vec<EsClause> },
}

/// The mathematical value of a clause.
pub enum EsClauseView {
    MultiMatch { query: Seq<char>, fields: Seq<Seq<char>>, fuzziness: Seq<char> },
    Match { field: Seq<char>, query: Seq<char>, fuzziness: Seq<char> },
    Term { field: Seq<char>, value: Seq<char> },
    Terms { field: Seq<char>, values: Seq<Seq<char>> },
    Range { field: Seq<char>, bound: RangeBound, amount: nat },
    Exists { field: Seq<char> },
}

/// The mathematical value of a query.
pub enum EsQueryView {
    MatchAll,
    Bool { must: Seq<EsClauseView>, must_not: Seq<EsClauseView> },
}

pub open spec fn texts(v: Seq<String>) -> Seq<Seq<char>> {
    v.map_values(|s: String| s@)
}

impl View for EsClause {
    type V = EsClauseView;

    open spec fn view(&self) -> EsClauseView {
        match self {
            EsClause::MultiMatch { query, fields, fuzziness } => EsClauseView::MultiMatch {
                query: query@,
                fields: texts(fields@),
                fuzziness: fuzziness@,
            },
            EsClause::Match { field, query, fuzziness } => EsClauseView::Match {
                field: field@,
                query: query@,
                fuzziness: fuzziness@,
            },
            EsClause::Term { field, value } => EsClauseView::Term { field: field@, value: value@ },
            EsClause::Terms { field, values } => EsClauseView::Terms {
                field: field@,
                values: texts(values@),
            },
            EsClause::Range { field, bound, amount } => EsClauseView::Range {
                field: field@,
                bound: *bound,
                amount: *amount as nat,
            },
            EsClause::Exists { field } => EsClauseView::Exists { field: field@ },
        }
    }
}

pub open spec fn clauses_view(v: Seq<EsClause>) -> Seq<EsClauseView> {
    v.map_values(|c: EsClause| c@)
}

impl View for EsQuery {
    type V = EsQueryView;

    open spec fn view(&self) -> EsQueryView {
        match self {
            EsQuery::MatchAll => EsQueryView::MatchAll,
            EsQuery::Bool { must, must_not } => EsQueryView::Bool {
                must: clauses_view(must@),
                must_not: clauses_view(must_not@),
            },
        }
    }
}

/// `seq![c]` when `cond` holds, else nothing.
pub open spec fn clause_if(cond: bool, c: EsClauseView) -> Seq<EsClauseView> {
    if cond {
        seq![c]
    } else {
        Seq::empty()
    }
}

/// The query over the given clauses: `match_all` when both lists are empty.
pub open spec fn spec_bool_query(must: Seq<EsClauseView>, must_not: Seq<EsClauseView>) -> EsQueryView {
    if must.len() == 0 && must_not.len() == 0 {
        EsQueryView::MatchAll
    } else {
        EsQueryView::Bool { must, must_not }
    }
}

/// A copy of a list of strings.
pub fn clone_strings(v: &Vec<String>) -> (res: Vec<String>)
    ensures
        texts(res@) == texts(v@),
{
    let mut res: Vec<String> = Vec::new();
    for i in 0..v.len()
        invariant
            texts(res@) == texts(v@.take(i as int)),
    {
        let ghost before = res@;
        let c = v[i].clone();
        res.push(c);
        proof {
            assert(v@.take(i + 1) =~= v@.take(i as int).push(v@[i as int]));
            assert(res@ =~= before.push(c));
            assert(texts(res@) =~= texts(before).push(c@));
            assert(texts(v@.take(i + 1)) =~= texts(v@.take(i as int)).push(v@[i as int]@));
        }
    }
    proof {
        assert(v@.take(v@.len() as int) =~= v@);
    }
    res
}

/// A `terms` clause over `values`.
pub fn terms_clause(field: &str, values: Vec<String>) -> (res: EsClause)
    ensures
        res@ == (EsClauseView::Terms { field: field@, values: texts(values@) }),
{
    EsClause::Terms { field: field.to_string(), values }
}

/// Pushes `c` onto `v`.
pub fn push_clause(v: &mut Vec<EsClause>, c: EsClause)
    ensures
        clauses_view(final(v)@) == clauses_view(old(v)@).push(c@),
{
    let ghost cv = c@;
    v.push(c);
    proof {
        assert(clauses_view(v@) =~= clauses_view(old(v)@).push(cv));
    }
}

/// The query over `must` and `must_not`: `match_all` when both are empty.
pub fn bool_query(must: Vec<EsClause>, must_not: Vec<EsClause>) -> (res: EsQuery)
    ensures
        res@ == spec_bool_query(clauses_view(must@), clauses_view(must_not@)),
{
    if must.len() == 0 && must_not.len() == 0 {
        EsQuery::MatchAll
    } else {
        EsQuery::Bool { must, must_not }
    }
}


/// Appends a `terms` clause over `values` when there is at least one value.
pub fn push_terms_if_any(v: &mut Vec<EsClause>, field: &str, values: &Vec<String>)
    ensures
        clauses_view(final(v)@) == clauses_view(old(v)@) + clause_if(
            values@.len() > 0,
            EsClauseView::Terms { field: field@, values: texts(values@) },
        ),
{
    if values.len() > 0 {
        let c = terms_clause(field, clone_strings(values));
        push_clause(v, c);
        proof {
            assert(clauses_view(v@) =~= clauses_view(old(v)@) + clause_if(
                values@.len() > 0,
                EsClauseView::Terms { field: field@, values: texts(values@) },
            ));
        }
    } else {
        proof {
            assert(clauses_view(v@) =~= clauses_view(old(v)@) + clause_if(
                values@.len() > 0,
                EsClauseView::Terms { field: field@, values: texts(values@) },
            ));
        }
    }
}

/// `Some(amount)` as a natural number, for range clauses.
pub open spec fn opt_amount(o: Option<u64>) -> nat {
    match o {
        Some(a) => a as nat,
        None => 0,
    }
}

/// Appends a range clause when a bound is given.
pub fn push_range_if_some(v: &mut Vec<EsClause>, field: &str, bound: RangeBound, amount: Option<u64>)
    ensures
        clauses_view(final(v)@) == clauses_view(old(v)@) + clause_if(
            amount is Some,
            EsClauseView::Range { field: field@, bound, amount: opt_amount(amount) },
        ),
{
    match amount {
        Some(a) => {
            push_clause(v, EsClause::Range { field: field.to_string(), bound, amount: a });
        },
        None => {},
    }
    proof {
        assert(clauses_view(v@) =~= clauses_view(old(v)@) + clause_if(
            amount is Some,
            EsClauseView::Range { field: field@, bound, amount: opt_amount(amount) },
        ));
    }
}

/// Widens an optional count to `u64`.
pub fn opt_usize_to_u64(o: Option<usize>) -> (res: Option<u64>)
    ensures
        res is Some == o is Some,
        o is Some ==> res->0 == o->0,
{
    match o {
        Some(x) => Some(x as u64),
        None => None,
    }
}

/// Widens an optional year to `u64`.
pub fn opt_u32_to_u64(o: Option<u32>) -> (res: Option<u64>)
    ensures
        res is Some == o is Some,
        o is Some ==> res->0 == o->0,
{
    match o {
        Some(x) => Some(x as u64),
        None => None,
    }
}

/// A clause in either part of a list of clauses is in the list, and a
/// clause that is added is there.
pub proof fn lemma_clause_seq_contains()
    ensures
        forall|a: Seq<EsClauseView>, b: Seq<EsClauseView>, x: EsClauseView| a.contains(x) ==> #[trigger] (a + b).contains(x),
        forall|a: Seq<EsClauseView>, b: Seq<EsClauseView>, x: EsClauseView| b.contains(x) ==> #[trigger] (a + b).contains(x),
        forall|x: EsClauseView| #[trigger] clause_if(true, x).contains(x),
{
    assert forall|a: Seq<EsClauseView>, b: Seq<EsClauseView>, x: EsClauseView| a.contains(x) implies #[trigger] (a + b).contains(x) by {
        let i = choose|i: int| 0 <= i < a.len() && a[i] == x;
        assert((a + b)[i] == a[i]);
    }
    assert forall|a: Seq<EsClauseView>, b: Seq<EsClauseView>, x: EsClauseView| b.contains(x) implies #[trigger] (a + b).contains(x) by {
        let i = choose|i: int| 0 <= i < b.len() && b[i] == x;
        assert((a + b)[a.len() + i] == b[i]);
    }
    assert forall|x: EsClauseView| #[trigger] clause_if(true, x).contains(x) by {
        assert(clause_if(true, x)[0] == x);
    }
}

} // verus!
