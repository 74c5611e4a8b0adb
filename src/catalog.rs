//! Queries on the catalog of recorded jams: which statement and parameters answer a question,
//! before a database runs it.

use vstd::prelude::*;

verus! {

/// One row of a catalog query: the row id and the selected column.
#[derive(Clone, Debug, PartialEq, Eq)]
pub struct JamQueryResult<T> {
    pub id: i64,
    pub data: T,
}

/// Which column a query selects.
#[derive(Clone, Debug, PartialEq, Eq)]
pub enum QueryTarget {
    Date,
    Path,
    /// The tracks of the jam with this id.
    Track(i64),
}

/// Which rows a query selects.
#[derive(Clone, Debug, PartialEq, Eq)]
pub enum QueryAmount {
    All,
    /// The row matching this key (a path for dates, a date for paths, a name for tracks).
    One(String),
    /// The jams of a year and month (`yymm`).
    Month(String),
    /// The days of a year and month (`yymm`) that have jams.
    MonthDays(String),
    /// The jams of a day (`yymmdd`).
    Day(String),
}

#[derive(Clone, Copy, Debug, PartialEq, Eq, Structural)]
pub enum DatabaseError {
    AlreadyExists,
    /// The target and amount do not make a query.
    InvalidQuery,
}

/// A parameter bound into a statement.
#[derive(Clone, Debug, PartialEq, Eq)]
pub enum SqlValue {
    Integer(i64),
    Text(String),
}

/// A statement with its numbered parameters, in order.
#[derive(Clone, Debug, PartialEq, Eq)]
pub struct Statement {
    pub sql: String,
    pub params: Vec<SqlValue>,
}

pub enum ParamView {
    Integer(i64),
    Text(Seq<char>),
}

impl View for SqlValue {
    type V = ParamView;

    open spec fn view(&self) -> ParamView {
        match self {
            SqlValue::Integer(n) => ParamView::Integer(*n),
            SqlValue::Text(s) => ParamView::Text(s@),
        }
    }
}

/// The statement and parameters that answer `target` and `amount`, where they make a query.
pub open spec fn statement_for(target: QueryTarget, amount: QueryAmount) -> Option<
    (Seq<char>, Seq<ParamView>),
> {
    match (target, amount) {
        (QueryTarget::Date, QueryAmount::All) => Some(("SELECT date, id FROM jams"@, seq![])),
        (QueryTarget::Date, QueryAmount::One(path)) => Some(
            ("SELECT date, id FROM jams WHERE path = ?1"@, seq![ParamView::Text(path@)]),
        ),
        (QueryTarget::Date, QueryAmount::Month(ym)) => Some(
            (
                "SELECT date, id FROM jams WHERE SUBSTR(date, 1, 4) = ?1;"@,
                seq![ParamView::Text(ym@)],
            ),
        ),
        (QueryTarget::Date, QueryAmount::MonthDays(ym)) => Some(
            (
                "SELECT CAST(SUBSTR(date, 5, 2) AS INTEGER) AS day, id FROM jams WHERE SUBSTR(date, 1, 4) = ?1;"@,
                seq![ParamView::Text(ym@)],
            ),
        ),
        (QueryTarget::Date, QueryAmount::Day(ymd)) => Some(
            (
                "SELECT date, id FROM jams WHERE SUBSTR(date, 1, 6) = ?1;"@,
                seq![ParamView::Text(ymd@)],
            ),
        ),
        (QueryTarget::Path, QueryAmount::All) => Some(("SELECT path, id FROM jams"@, seq![])),
        (QueryTarget::Path, QueryAmount::One(date)) => Some(
            ("SELECT path, id FROM jams WHERE date = ?1"@, seq![ParamView::Text(date@)]),
        ),
        (QueryTarget::Track(jam), QueryAmount::All) => Some(
            ("SELECT track, id FROM tracks WHERE jam_id = ?1"@, seq![ParamView::Integer(jam)]),
        ),
        (QueryTarget::Track(jam), QueryAmount::One(stem)) => Some(
            (
                "SELECT track, id FROM tracks WHERE jam_id = ?1 AND track = ?2"@,
                seq![ParamView::Integer(jam), ParamView::Text(stem@)],
            ),
        ),
        _ => None,
    }
}

fn text_param(s: String) -> (r: SqlValue)
    ensures
        r@ == ParamView::Text(s@),
{
    SqlValue::Text(s)
}

/// The statement that answers `target` and `amount`; `InvalidQuery` where they make none.
pub fn query_statement(target: QueryTarget, amount: QueryAmount) -> (r: Result<
    Statement,
    DatabaseError,
>)
    ensures
        match r {
            Ok(st) => statement_for(target, amount) == Some(
                (st.sql@, st.params@.map_values(|p: SqlValue| p@)),
            ),
            Err(e) => e == DatabaseError::InvalidQuery && statement_for(target, amount) is None,
        },
{
    let ghost (t0, a0) = (target, amount);
    let mut params: Vec<SqlValue> = Vec::new();
    let sql = match (target, amount) {
        (QueryTarget::Date, QueryAmount::All) => "SELECT date, id FROM jams",
        (QueryTarget::Date, QueryAmount::One(path)) => {
            params.push(text_param(path));
            "SELECT date, id FROM jams WHERE path = ?1"
        },
        (QueryTarget::Date, QueryAmount::Month(ym)) => {
            params.push(text_param(ym));
            "SELECT date, id FROM jams WHERE SUBSTR(date, 1, 4) = ?1;"
        },
        (QueryTarget::Date, QueryAmount::MonthDays(ym)) => {
            params.push(text_param(ym));
            "SELECT CAST(SUBSTR(date, 5, 2) AS INTEGER) AS day, id FROM jams WHERE SUBSTR(date, 1, 4) = ?1;"
        },
        (QueryTarget::Date, QueryAmount::Day(ymd)) => {
            params.push(text_param(ymd));
            "SELECT date, id FROM jams WHERE SUBSTR(date, 1, 6) = ?1;"
        },
        (QueryTarget::Path, QueryAmount::All) => "SELECT path, id FROM jams",
        (QueryTarget::Path, QueryAmount::One(date)) => {
            params.push(text_param(date));
            "SELECT path, id FROM jams WHERE date = ?1"
        },
        (QueryTarget::Track(jam), QueryAmount::All) => {
            params.push(SqlValue::Integer(jam));
            "SELECT track, id FROM tracks WHERE jam_id = ?1"
        },
        (QueryTarget::Track(jam), QueryAmount::One(stem)) => {
            params.push(SqlValue::Integer(jam));
            params.push(text_param(stem));
            "SELECT track, id FROM tracks WHERE jam_id = ?1 AND track = ?2"
        },
        _ => return Err(DatabaseError::InvalidQuery),
    };
    let st = Statement { sql: String::from_str(sql), params };
    assert(statement_for(t0, a0) == Some((st.sql@, st.params@.map_values(|p: SqlValue| p@)))) by {
        let pair = statement_for(t0, a0)->0;
        let want = pair.1;
        assert(st.params@.map_values(|p: SqlValue| p@) =~= want);
    }
    Ok(st)
}

} // verus!
