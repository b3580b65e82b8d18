//! A placeholder query engine: it fabricates a result shaped by the query
//! text instead of planning and executing it.

use vstd::prelude::*;
use vstd::string::StringSliceAdditionalSpecFns;

verus! {

/// Why a query failed.
#[derive(Debug)]
pub enum QueryError {
    ParseError(String),
    ExecutionError(String),
    InternalError(String),
}

/// The mathematical model of a [`QueryError`].
pub enum QueryErrorView {
    ParseError(Seq<char>),
    ExecutionError(Seq<char>),
    InternalError(Seq<char>),
}

impl View for QueryError {
    type V = QueryErrorView;

    open spec fn view(&self) -> QueryErrorView {
        match self {
            QueryError::ParseError(m) => QueryErrorView::ParseError(m@),
            QueryError::ExecutionError(m) => QueryErrorView::ExecutionError(m@),
            QueryError::InternalError(m) => QueryErrorView::InternalError(m@),
        }
    }
}

/// A query's rows as plain columns: one id and one value per row.
#[derive(Debug)]
pub struct QueryRows {
    pub ids: Vec<i64>,
    pub values: Vec<String>,
}

pub struct QueryEngine {}

impl QueryEngine {
    pub fn new() -> QueryEngine {
        QueryEngine {}
    }

    /// Fabricates one row per byte of the query text: ids count up from zero
    /// and every value is the constant column `"value"`. An empty query is a
    /// parse error; nothing else fails.
    pub fn execute_query(&self, query: &str) -> (r: Result<QueryRows, QueryError>)
        requires
            query.spec_bytes().len() <= i64::MAX,
        ensures
            match r {
                Ok(rows) => {
                    &&& query.spec_bytes().len() > 0
                    &&& rows.ids@.len() == query.spec_bytes().len()
                    &&& rows.values@.len() == query.spec_bytes().len()
                    &&& forall|i: int| 0 <= i < rows.ids@.len() ==> #[trigger] rows.ids@[i] == i
                    &&& forall|i: int|
                        0 <= i < rows.values@.len() ==> (#[trigger] rows.values@[i])@ == "value"@
                },
                Err(e) => query.spec_bytes().len() == 0 && (e@ matches QueryErrorView::ParseError(
                    m,
                ) && m == "Empty query"@),
            },
    {
        let n = query.as_bytes().len();
        if n == 0 {
            return Err(QueryError::ParseError("Empty query".to_owned()));
        }
        let mut ids: Vec<i64> = Vec::new();
        let mut values: Vec<String> = Vec::new();
        let mut i: usize = 0;
        while i < n
            invariant
                i <= n,
                n <= i64::MAX,
                ids@.len() == i,
                values@.len() == i,
                forall|k: int| 0 <= k < i ==> #[trigger] ids@[k] == k,
                forall|k: int| 0 <= k < i ==> (#[trigger] values@[k])@ == "value"@,
            decreases n - i,
        {
            ids.push(i as i64);
            values.push("value".to_owned());
            i += 1;
        }
        Ok(QueryRows { ids, values })
    }
}

} // verus!
