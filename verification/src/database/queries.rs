//! The read side of the store: the listing, history, snapshot, search and
//! ranking statements, each with the statement that counts its rows.

use vstd::prelude::*;
use vstd::string::StringExecFns;

use super::statement::{
    contains_pattern, pattern_containing, push_where, where_clause, SqlValue, SqlValueView,
    Statement, StatementView,
};
use crate::calendar::{CivilDate, TradeDate};
use crate::error::ValidationError;
use crate::text::str_eq;

verus! {

/// Number of log entries shown when the caller names none.
pub const DEFAULT_LOG_LIMIT: i32 = 10;

/// Number of rows of each ranking in the market overview.
pub const OVERVIEW_RANKING_LIMIT: u32 = 5;

/// A statement that lists rows of a page, and the statement that counts the
/// rows of all pages.
#[derive(Debug, PartialEq, Eq)]
pub struct PagedQuery {
    pub rows: Statement,
    pub count: Statement,
}

/// A ranking of the most recent trading day.
#[derive(Debug, Clone, Copy, PartialEq, Eq, Structural)]
pub enum Metric {
    /// Largest relative rise of the last price over the previous close.
    Gainers,
    /// Largest relative fall of the last price below the previous close.
    Losers,
    /// Largest traded quantity.
    Volume,
}

/// The text of the log listing.
pub open spec fn ingestion_logs_sql() -> Seq<char> {
    "SELECT id, source, file_name, trade_date, records_processed, status, error_message, started_at, completed_at FROM ingestion_log ORDER BY completed_at DESC LIMIT ?"@
}

/// The most recent log entries, latest completion first: as many as `limit`
/// says, or [`DEFAULT_LOG_LIMIT`].
pub open spec fn ingestion_logs_statement(limit: Option<i32>) -> StatementView {
    StatementView {
        sql: ingestion_logs_sql(),
        params: seq![
            SqlValueView::Integer(
                match limit {
                    Some(n) => n as int,
                    None => DEFAULT_LOG_LIMIT as int,
                },
            ),
        ],
    }
}

/// The columns of a company row, read from the companies.
pub open spec fn companies_select() -> Seq<char> {
    "SELECT id, symbol, isin, series, name, created_at, updated_at FROM companies"@
}

/// The count of company rows.
pub open spec fn companies_count_select() -> Seq<char> {
    "SELECT COUNT(*) as count FROM companies"@
}

/// Order and page of the company listing: by symbol, rising.
pub open spec fn companies_order() -> Seq<char> {
    " ORDER BY symbol LIMIT ? OFFSET ?"@
}

/// The symbol or the name matches a pattern, whatever the case of ASCII letters.
pub open spec fn search_condition() -> Seq<char> {
    "(symbol LIKE ? OR name LIKE ?)"@
}

/// The series is equal to a value.
pub open spec fn series_condition() -> Seq<char> {
    "series = ?"@
}

/// The conditions of the company listing: a search term matches symbol or
/// name, a series must be equal.
pub open spec fn companies_conditions(search: Option<Seq<char>>, series: Option<Seq<char>>) -> Seq<
    Seq<char>,
> {
    (if search is Some {
        seq![search_condition()]
    } else {
        Seq::empty()
    }) + (if series is Some {
        seq![series_condition()]
    } else {
        Seq::empty()
    })
}

/// The values bound to [`companies_conditions`].
pub open spec fn companies_filter_params(search: Option<Seq<char>>, series: Option<Seq<char>>)
    -> Seq<SqlValueView> {
    (match search {
        Some(term) => seq![
            SqlValueView::Text(contains_pattern(term)),
            SqlValueView::Text(contains_pattern(term)),
        ],
        None => Seq::empty(),
    }) + (match series {
        Some(s) => seq![SqlValueView::Text(s)],
        None => Seq::empty(),
    })
}

/// The two values that cut a page out of a listing.
pub open spec fn page_params(limit: u32, offset: u32) -> Seq<SqlValueView> {
    seq![SqlValueView::Integer(limit as int), SqlValueView::Integer(offset as int)]
}

/// The company listing, ordered by symbol.
pub open spec fn companies_rows_statement(
    limit: u32,
    offset: u32,
    search: Option<Seq<char>>,
    series: Option<Seq<char>>,
) -> StatementView {
    StatementView {
        sql: companies_select() + where_clause(companies_conditions(search, series))
            + companies_order(),
        params: companies_filter_params(search, series) + page_params(limit, offset),
    }
}

/// The count of the companies that the listing's filter lets through.
pub open spec fn companies_count_statement(search: Option<Seq<char>>, series: Option<Seq<char>>)
    -> StatementView {
    StatementView {
        sql: companies_count_select() + where_clause(companies_conditions(search, series)),
        params: companies_filter_params(search, series),
    }
}

/// The columns of a price row with its company's symbol, read from the prices joined to their companies.
pub open spec fn prices_select() -> Seq<char> {
    "SELECT dp.id, dp.company_id, c.symbol, dp.trade_date, dp.open_price, dp.high_price, dp.low_price, dp.close_price, dp.last_price, dp.prev_close, dp.total_traded_qty, dp.total_traded_value, dp.total_trades, dp.created_at FROM daily_prices dp JOIN companies c ON dp.company_id = c.id"@
}

/// The count of price rows joined to their companies.
pub open spec fn prices_count_select() -> Seq<char> {
    "SELECT COUNT(*) as count FROM daily_prices dp JOIN companies c ON dp.company_id = c.id"@
}

/// Order and page of a price history: by trading day, falling.
pub open spec fn history_order() -> Seq<char> {
    " ORDER BY dp.trade_date DESC LIMIT ? OFFSET ?"@
}

/// The company's symbol is equal to a value.
pub open spec fn symbol_condition() -> Seq<char> {
    "c.symbol = ?"@
}

/// The trading day is a given day or a later one.
pub open spec fn from_date_condition() -> Seq<char> {
    "dp.trade_date >= ?"@
}

/// The trading day is a given day or an earlier one.
pub open spec fn to_date_condition() -> Seq<char> {
    "dp.trade_date <= ?"@
}

/// The conditions of a price history: the symbol must be equal, and each
/// date bound given is inclusive.
pub open spec fn history_conditions(from_date: Option<Seq<char>>, to_date: Option<Seq<char>>)
    -> Seq<Seq<char>> {
    seq![symbol_condition()] + (if from_date is Some {
        seq![from_date_condition()]
    } else {
        Seq::empty()
    }) + (if to_date is Some {
        seq![to_date_condition()]
    } else {
        Seq::empty()
    })
}

/// The values bound to [`history_conditions`].
pub open spec fn history_filter_params(
    symbol: Seq<char>,
    from_date: Option<Seq<char>>,
    to_date: Option<Seq<char>>,
) -> Seq<SqlValueView> {
    seq![SqlValueView::Text(symbol)] + (match from_date {
        Some(d) => seq![SqlValueView::Text(d)],
        None => Seq::empty(),
    }) + (match to_date {
        Some(d) => seq![SqlValueView::Text(d)],
        None => Seq::empty(),
    })
}

/// The price history of one symbol, latest day first.
pub open spec fn history_rows_statement(
    symbol: Seq<char>,
    limit: u32,
    offset: u32,
    from_date: Option<Seq<char>>,
    to_date: Option<Seq<char>>,
) -> StatementView {
    StatementView {
        sql: prices_select() + where_clause(history_conditions(from_date, to_date))
            + history_order(),
        params: history_filter_params(symbol, from_date, to_date) + page_params(limit, offset),
    }
}

/// The count of the rows of a price history.
pub open spec fn history_count_statement(
    symbol: Seq<char>,
    from_date: Option<Seq<char>>,
    to_date: Option<Seq<char>>,
) -> StatementView {
    StatementView {
        sql: prices_count_select() + where_clause(history_conditions(from_date, to_date)),
        params: history_filter_params(symbol, from_date, to_date),
    }
}

/// The text that asks for the latest trading day the store holds a price of.
pub open spec fn latest_date_sql() -> Seq<char> {
    "SELECT MAX(trade_date) as max_date FROM daily_prices"@
}

/// Order and page of a snapshot: by turnover, falling.
pub open spec fn snapshot_order() -> Seq<char> {
    " ORDER BY dp.total_traded_value DESC LIMIT ? OFFSET ?"@
}

/// The trading day is equal to a value.
pub open spec fn day_condition() -> Seq<char> {
    "dp.trade_date = ?"@
}

/// The company's series is equal to a value.
pub open spec fn company_series_condition() -> Seq<char> {
    "c.series = ?"@
}

/// The day a snapshot shows: the day asked for; without one, the latest day
/// the store holds; and no day at all while the store holds no price.
pub open spec fn snapshot_day(requested: Option<Seq<char>>, latest_stored: Option<CivilDate>)
    -> Option<SqlValueView> {
    match requested {
        Some(day) => Some(SqlValueView::Text(day)),
        None => match latest_stored {
            Some(day) => Some(SqlValueView::Date(day)),
            None => None,
        },
    }
}

/// The conditions of a snapshot: rows of the one day, and of the series
/// where one is given.
pub open spec fn snapshot_conditions(day: Option<SqlValueView>, series: Option<Seq<char>>) -> Seq<
    Seq<char>,
> {
    (if day is Some {
        seq![day_condition()]
    } else {
        Seq::empty()
    }) + (if series is Some {
        seq![company_series_condition()]
    } else {
        Seq::empty()
    })
}

/// The values bound to [`snapshot_conditions`].
pub open spec fn snapshot_filter_params(day: Option<SqlValueView>, series: Option<Seq<char>>)
    -> Seq<SqlValueView> {
    (match day {
        Some(d) => seq![d],
        None => Seq::empty(),
    }) + (match series {
        Some(s) => seq![SqlValueView::Text(s)],
        None => Seq::empty(),
    })
}

/// The snapshot of one day, largest turnover first.
pub open spec fn snapshot_rows_statement(
    limit: u32,
    offset: u32,
    day: Option<SqlValueView>,
    series: Option<Seq<char>>,
) -> StatementView {
    StatementView {
        sql: prices_select() + where_clause(snapshot_conditions(day, series)) + snapshot_order(),
        params: snapshot_filter_params(day, series) + page_params(limit, offset),
    }
}

/// The count of the rows of a snapshot.
pub open spec fn snapshot_count_statement(day: Option<SqlValueView>, series: Option<Seq<char>>)
    -> StatementView {
    StatementView {
        sql: prices_count_select() + where_clause(snapshot_conditions(day, series)),
        params: snapshot_filter_params(day, series),
    }
}

/// The text of the company search: each match joined to its price row of the latest day it has one for, by symbol.
pub open spec fn search_rows_sql() -> Seq<char> {
    "SELECT DISTINCT c.id, c.symbol, c.isin, c.series, c.name, dp.close_price as latest_price, dp.trade_date as latest_date FROM companies c LEFT JOIN daily_prices dp ON c.id = dp.company_id AND dp.trade_date = (SELECT MAX(trade_date) FROM daily_prices WHERE company_id = c.id) WHERE c.symbol LIKE ? OR c.name LIKE ? ORDER BY c.symbol LIMIT ? OFFSET ?"@
}

/// The text that counts the matches of the company search.
pub open spec fn search_count_sql() -> Seq<char> {
    "SELECT COUNT(DISTINCT c.id) as count FROM companies c WHERE c.symbol LIKE ? OR c.name LIKE ?"@
}

/// The companies whose symbol or name holds `query`, each with its most
/// recent price, ordered by symbol.
pub open spec fn search_rows_statement(query: Seq<char>, limit: u32, offset: u32)
    -> StatementView {
    StatementView {
        sql: search_rows_sql(),
        params: seq![
            SqlValueView::Text(contains_pattern(query)),
            SqlValueView::Text(contains_pattern(query)),
        ] + page_params(limit, offset),
    }
}

/// The count of the companies whose symbol or name holds `query`.
pub open spec fn search_count_statement(query: Seq<char>) -> StatementView {
    StatementView {
        sql: search_count_sql(),
        params: seq![
            SqlValueView::Text(contains_pattern(query)),
            SqlValueView::Text(contains_pattern(query)),
        ],
    }
}

/// The columns of a ranking row, read from the price rows of the latest trading day.
pub open spec fn ranking_select() -> Seq<char> {
    "SELECT c.symbol, c.series, dp.last_price as latest_price, dp.prev_close, (dp.last_price - dp.prev_close) as price_change, ((dp.last_price - dp.prev_close) / dp.prev_close * 100) as price_change_percent, dp.total_traded_qty as volume FROM daily_prices dp JOIN companies c ON dp.company_id = c.id WHERE dp.trade_date = (SELECT MAX(trade_date) FROM daily_prices)"@
}

/// The previous close is positive.
pub open spec fn positive_previous_close() -> Seq<char> {
    " AND dp.prev_close > 0"@
}

/// How a ranking filters and orders the rows of the latest day: gainers and
/// losers leave out rows without a positive previous close and order by the
/// relative change, falling for gainers and rising for losers; volume
/// orders all rows by falling quantity.
pub open spec fn ranking_order(metric: Metric) -> Seq<char> {
    match metric {
        Metric::Gainers => positive_previous_close() + " ORDER BY price_change_percent DESC LIMIT ?"@,
        Metric::Losers => positive_previous_close() + " ORDER BY price_change_percent ASC LIMIT ?"@,
        Metric::Volume => " ORDER BY dp.total_traded_qty DESC LIMIT ?"@,
    }
}

/// The first `limit` rows of a ranking of the most recent trading day.
pub open spec fn ranking_statement(metric: Metric, limit: u32) -> StatementView {
    StatementView {
        sql: ranking_select() + ranking_order(metric),
        params: seq![SqlValueView::Integer(limit as int)],
    }
}

/// The ranking that a name stands for.
pub open spec fn metric_named(name: Seq<char>) -> Option<Metric> {
    if name == "gainers"@ {
        Some(Metric::Gainers)
    } else if name == "losers"@ {
        Some(Metric::Losers)
    } else if name == "volume"@ {
        Some(Metric::Volume)
    } else {
        None
    }
}

/// The text that counts all companies.
pub open spec fn company_total_sql() -> Seq<char> {
    "SELECT COUNT(*) as count FROM companies"@
}

/// The text that counts all price rows.
pub open spec fn price_total_sql() -> Seq<char> {
    "SELECT COUNT(*) as count FROM daily_prices"@
}

impl Metric {
    /// The ranking that `name` stands for; any name but `gainers`,
    /// `losers` and `volume` is refused.
    pub fn parse(name: &str) -> (metric: Result<Metric, ValidationError>)
        ensures
            match metric {
                Ok(m) => metric_named(name@) == Some(m),
                Err(e) => metric_named(name@) is None && e == ValidationError::UnknownMetric,
            },
    {
        if str_eq(name, "gainers") {
            Ok(Metric::Gainers)
        } else if str_eq(name, "losers") {
            Ok(Metric::Losers)
        } else if str_eq(name, "volume") {
            Ok(Metric::Volume)
        } else {
            Err(ValidationError::UnknownMetric)
        }
    }

    /// The name of the ranking.
    pub fn name(self) -> (name: &'static str)
        ensures
            metric_named(name@) == Some(self),
    {
        proof {
            reveal_strlit("gainers");
            reveal_strlit("losers");
            reveal_strlit("volume");
            assert("gainers"@.len() == 7 && "losers"@.len() == 6);
            assert("losers"@[0] == 'l' && "volume"@[0] == 'v');
        }
        match self {
            Metric::Gainers => "gainers",
            Metric::Losers => "losers",
            Metric::Volume => "volume",
        }
    }
}

/// The two values that cut a page out of a listing.
fn push_page_params(params: &mut Vec<SqlValue>, limit: u32, offset: u32)
    ensures
        final(params).deep_view() == old(params).deep_view() + page_params(limit, offset),
{
    params.push(SqlValue::Integer(limit as i64));
    params.push(SqlValue::Integer(offset as i64));
    assert(params.deep_view() =~= old(params).deep_view() + page_params(limit, offset));
}

/// A statement without bound values.
fn plain_statement(sql: &'static str) -> (statement: Statement)
    ensures
        statement@ == (StatementView { sql: sql@, params: Seq::empty() }),
{
    let statement = Statement { sql: String::from_str(sql), params: Vec::new() };
    assert(statement.params.deep_view() =~= Seq::<SqlValueView>::empty());
    statement
}

/// The most recent log entries, latest completion first: as many as `limit`
/// says, or [`DEFAULT_LOG_LIMIT`].
pub fn get_ingestion_logs(limit: Option<i32>) -> (statement: Statement)
    ensures
        statement@ == ingestion_logs_statement(limit),
{
    let count: i32 = match limit {
        Some(n) => n,
        None => DEFAULT_LOG_LIMIT,
    };
    let mut params: Vec<SqlValue> = Vec::new();
    params.push(SqlValue::Integer(count as i64));
    let statement = Statement {
        sql: String::from_str(
            "SELECT id, source, file_name, trade_date, records_processed, status, error_message, started_at, completed_at FROM ingestion_log ORDER BY completed_at DESC LIMIT ?",
        ),
        params,
    };
    assert(statement@.params =~= ingestion_logs_statement(limit).params);
    statement
}

/// The company listing: an optional search term that symbol or name must
/// hold, an optional series that must be equal; ordered by symbol.
pub fn get_companies(limit: u32, offset: u32, search: Option<&str>, series: Option<&str>) -> (query:
    PagedQuery)
    ensures
        query.rows@ == companies_rows_statement(
            limit,
            offset,
            search.deep_view(),
            series.deep_view(),
        ),
        query.count@ == companies_count_statement(
            search.deep_view(),
            series.deep_view(),
        ),
{
    let ghost search_view: Option<Seq<char>> = search.deep_view();
    let ghost series_view: Option<Seq<char>> = series.deep_view();
    let mut conditions: Vec<&'static str> = Vec::new();
    let mut row_params: Vec<SqlValue> = Vec::new();
    let mut count_params: Vec<SqlValue> = Vec::new();
    if let Some(term) = search {
        conditions.push("(symbol LIKE ? OR name LIKE ?)");
        row_params.push(SqlValue::Text(pattern_containing(term)));
        row_params.push(SqlValue::Text(pattern_containing(term)));
        count_params.push(SqlValue::Text(pattern_containing(term)));
        count_params.push(SqlValue::Text(pattern_containing(term)));
    }
    if let Some(wanted) = series {
        conditions.push("series = ?");
        row_params.push(SqlValue::Text(String::from_str(wanted)));
        count_params.push(SqlValue::Text(String::from_str(wanted)));
    }
    assert(conditions.deep_view() =~= companies_conditions(search_view, series_view));
    assert(row_params.deep_view() =~= companies_filter_params(search_view, series_view));
    assert(count_params.deep_view() =~= companies_filter_params(search_view, series_view));

    let mut rows_sql = String::from_str(
        "SELECT id, symbol, isin, series, name, created_at, updated_at FROM companies",
    );
    push_where(&mut rows_sql, &conditions);
    rows_sql.append(" ORDER BY symbol LIMIT ? OFFSET ?");
    push_page_params(&mut row_params, limit, offset);

    let mut count_sql = String::from_str("SELECT COUNT(*) as count FROM companies");
    push_where(&mut count_sql, &conditions);

    PagedQuery {
        rows: Statement { sql: rows_sql, params: row_params },
        count: Statement { sql: count_sql, params: count_params },
    }
}

/// The price history of `symbol`: optional first and last day, both
/// included; latest day first.
pub fn get_company_prices(
    symbol: &str,
    limit: u32,
    offset: u32,
    from_date: Option<&str>,
    to_date: Option<&str>,
) -> (query: PagedQuery)
    ensures
        query.rows@ == history_rows_statement(
            symbol@,
            limit,
            offset,
            from_date.deep_view(),
            to_date.deep_view(),
        ),
        query.count@ == history_count_statement(
            symbol@,
            from_date.deep_view(),
            to_date.deep_view(),
        ),
{
    let ghost from_view: Option<Seq<char>> = from_date.deep_view();
    let ghost to_view: Option<Seq<char>> = to_date.deep_view();
    let mut conditions: Vec<&'static str> = Vec::new();
    let mut row_params: Vec<SqlValue> = Vec::new();
    let mut count_params: Vec<SqlValue> = Vec::new();
    conditions.push("c.symbol = ?");
    row_params.push(SqlValue::Text(String::from_str(symbol)));
    count_params.push(SqlValue::Text(String::from_str(symbol)));
    if let Some(first) = from_date {
        conditions.push("dp.trade_date >= ?");
        row_params.push(SqlValue::Text(String::from_str(first)));
        count_params.push(SqlValue::Text(String::from_str(first)));
    }
    if let Some(last) = to_date {
        conditions.push("dp.trade_date <= ?");
        row_params.push(SqlValue::Text(String::from_str(last)));
        count_params.push(SqlValue::Text(String::from_str(last)));
    }
    assert(conditions.deep_view() =~= history_conditions(from_view, to_view));
    assert(row_params.deep_view() =~= history_filter_params(symbol@, from_view, to_view));
    assert(count_params.deep_view() =~= history_filter_params(symbol@, from_view, to_view));

    let mut rows_sql = String::from_str(
        "SELECT dp.id, dp.company_id, c.symbol, dp.trade_date, dp.open_price, dp.high_price, dp.low_price, dp.close_price, dp.last_price, dp.prev_close, dp.total_traded_qty, dp.total_traded_value, dp.total_trades, dp.created_at FROM daily_prices dp JOIN companies c ON dp.company_id = c.id",
    );
    push_where(&mut rows_sql, &conditions);
    rows_sql.append(" ORDER BY dp.trade_date DESC LIMIT ? OFFSET ?");
    push_page_params(&mut row_params, limit, offset);

    let mut count_sql = String::from_str(
        "SELECT COUNT(*) as count FROM daily_prices dp JOIN companies c ON dp.company_id = c.id",
    );
    push_where(&mut count_sql, &conditions);

    PagedQuery {
        rows: Statement { sql: rows_sql, params: row_params },
        count: Statement { sql: count_sql, params: count_params },
    }
}

/// The statement that asks the store for the latest day it holds a price of.
pub fn latest_trade_date() -> (statement: Statement)
    ensures
        statement@ == (StatementView { sql: latest_date_sql(), params: Seq::empty() }),
{
    plain_statement("SELECT MAX(trade_date) as max_date FROM daily_prices")
}

/// Whether a snapshot has to ask the store for its latest day first: only
/// where the request names no day.
pub fn snapshot_needs_latest_day(requested: Option<&str>) -> (needed: bool)
    ensures
        needed == (requested is None),
{
    requested.is_none()
}

/// The day a snapshot shows: the day asked for; without one, the latest day
/// the store holds; and no day at all while the store holds no price.
pub fn resolve_snapshot_day(requested: Option<&str>, latest_stored: Option<TradeDate>) -> (day:
    Option<SqlValue>)
    ensures
        match day {
            Some(d) => snapshot_day(
                requested.deep_view(),
                latest_stored.deep_view(),
            ) == Some(d@),
            None => requested is None && latest_stored is None,
        },
{
    match requested {
        Some(day) => Some(SqlValue::Text(String::from_str(day))),
        None => match latest_stored {
            Some(day) => Some(SqlValue::Date(day)),
            None => None,
        },
    }
}

/// The snapshot of the day `day` (see [`resolve_snapshot_day`]), of one
/// series where one is given; largest turnover first.
pub fn get_latest_prices(limit: u32, offset: u32, day: Option<SqlValue>, series: Option<&str>) -> (query:
    PagedQuery)
    ensures
        query.rows@ == snapshot_rows_statement(
            limit,
            offset,
            day.deep_view(),
            series.deep_view(),
        ),
        query.count@ == snapshot_count_statement(
            day.deep_view(),
            series.deep_view(),
        ),
{
    let ghost day_view: Option<SqlValueView> = day.deep_view();
    let ghost series_view: Option<Seq<char>> = series.deep_view();
    let mut conditions: Vec<&'static str> = Vec::new();
    let mut row_params: Vec<SqlValue> = Vec::new();
    let mut count_params: Vec<SqlValue> = Vec::new();
    if let Some(d) = day {
        conditions.push("dp.trade_date = ?");
        count_params.push(d.duplicate());
        row_params.push(d);
    }
    if let Some(wanted) = series {
        conditions.push("c.series = ?");
        row_params.push(SqlValue::Text(String::from_str(wanted)));
        count_params.push(SqlValue::Text(String::from_str(wanted)));
    }
    assert(conditions.deep_view() =~= snapshot_conditions(day_view, series_view));
    assert(row_params.deep_view() =~= snapshot_filter_params(day_view, series_view));
    assert(count_params.deep_view() =~= snapshot_filter_params(day_view, series_view));

    let mut rows_sql = String::from_str(
        "SELECT dp.id, dp.company_id, c.symbol, dp.trade_date, dp.open_price, dp.high_price, dp.low_price, dp.close_price, dp.last_price, dp.prev_close, dp.total_traded_qty, dp.total_traded_value, dp.total_trades, dp.created_at FROM daily_prices dp JOIN companies c ON dp.company_id = c.id",
    );
    push_where(&mut rows_sql, &conditions);
    rows_sql.append(" ORDER BY dp.total_traded_value DESC LIMIT ? OFFSET ?");
    push_page_params(&mut row_params, limit, offset);

    let mut count_sql = String::from_str(
        "SELECT COUNT(*) as count FROM daily_prices dp JOIN companies c ON dp.company_id = c.id",
    );
    push_where(&mut count_sql, &conditions);

    PagedQuery {
        rows: Statement { sql: rows_sql, params: row_params },
        count: Statement { sql: count_sql, params: count_params },
    }
}

/// The companies whose symbol or name holds `query`, each with its most
/// recent price; ordered by symbol.
pub fn search_companies(query: &str, limit: u32, offset: u32) -> (search: PagedQuery)
    ensures
        search.rows@ == search_rows_statement(query@, limit, offset),
        search.count@ == search_count_statement(query@),
{
    let mut row_params: Vec<SqlValue> = Vec::new();
    let mut count_params: Vec<SqlValue> = Vec::new();
    row_params.push(SqlValue::Text(pattern_containing(query)));
    row_params.push(SqlValue::Text(pattern_containing(query)));
    count_params.push(SqlValue::Text(pattern_containing(query)));
    count_params.push(SqlValue::Text(pattern_containing(query)));
    assert(count_params.deep_view() =~= search_count_statement(query@).params);
    push_page_params(&mut row_params, limit, offset);
    assert(row_params.deep_view() =~= search_rows_statement(query@, limit, offset).params);
    PagedQuery {
        rows: Statement {
            sql: String::from_str(
                "SELECT DISTINCT c.id, c.symbol, c.isin, c.series, c.name, dp.close_price as latest_price, dp.trade_date as latest_date FROM companies c LEFT JOIN daily_prices dp ON c.id = dp.company_id AND dp.trade_date = (SELECT MAX(trade_date) FROM daily_prices WHERE company_id = c.id) WHERE c.symbol LIKE ? OR c.name LIKE ? ORDER BY c.symbol LIMIT ? OFFSET ?",
            ),
            params: row_params,
        },
        count: Statement {
            sql: String::from_str(
                "SELECT COUNT(DISTINCT c.id) as count FROM companies c WHERE c.symbol LIKE ? OR c.name LIKE ?",
            ),
            params: count_params,
        },
    }
}

/// The first `limit` rows of the ranking `metric` of the most recent
/// trading day.
pub fn top_performers(metric: Metric, limit: u32) -> (statement: Statement)
    ensures
        statement@ == ranking_statement(metric, limit),
{
    let mut sql = String::from_str(
        "SELECT c.symbol, c.series, dp.last_price as latest_price, dp.prev_close, (dp.last_price - dp.prev_close) as price_change, ((dp.last_price - dp.prev_close) / dp.prev_close * 100) as price_change_percent, dp.total_traded_qty as volume FROM daily_prices dp JOIN companies c ON dp.company_id = c.id WHERE dp.trade_date = (SELECT MAX(trade_date) FROM daily_prices)",
    );
    match metric {
        Metric::Gainers => {
            sql.append(" AND dp.prev_close > 0");
            sql.append(" ORDER BY price_change_percent DESC LIMIT ?");
        },
        Metric::Losers => {
            sql.append(" AND dp.prev_close > 0");
            sql.append(" ORDER BY price_change_percent ASC LIMIT ?");
        },
        Metric::Volume => {
            sql.append(" ORDER BY dp.total_traded_qty DESC LIMIT ?");
        },
    }
    let mut params: Vec<SqlValue> = Vec::new();
    params.push(SqlValue::Integer(limit as i64));
    let statement = Statement { sql, params };
    assert(statement@.sql =~= ranking_statement(metric, limit).sql);
    assert(statement@.params =~= ranking_statement(metric, limit).params);
    statement
}

/// The first `limit` rows of the ranking that `metric` names; a name that
/// names no ranking is refused.
pub fn get_top_performers(metric: &str, limit: u32) -> (statement: Result<Statement, ValidationError>)
    ensures
        match statement {
            Ok(s) => metric_named(metric@) matches Some(m) && s@ == ranking_statement(m, limit),
            Err(e) => metric_named(metric@) is None && e == ValidationError::UnknownMetric,
        },
{
    match Metric::parse(metric) {
        Ok(m) => Ok(top_performers(m, limit)),
        Err(e) => Err(e),
    }
}

/// The statements of the market overview, one composite read.
#[derive(Debug, PartialEq, Eq)]
pub struct MarketOverviewQuery {
    pub total_companies: Statement,
    pub total_price_records: Statement,
    pub latest_trading_date: Statement,
    pub top_gainers: Statement,
    pub top_losers: Statement,
    pub most_active: Statement,
}

/// The market overview: the count of companies, the count of price rows,
/// the latest trading day, and the first [`OVERVIEW_RANKING_LIMIT`] rows of
/// each of the three rankings.
pub fn get_market_overview() -> (overview: MarketOverviewQuery)
    ensures
        overview.total_companies@ == (StatementView {
            sql: company_total_sql(),
            params: Seq::empty(),
        }),
        overview.total_price_records@ == (StatementView {
            sql: price_total_sql(),
            params: Seq::empty(),
        }),
        overview.latest_trading_date@ == (StatementView {
            sql: latest_date_sql(),
            params: Seq::empty(),
        }),
        overview.top_gainers@ == ranking_statement(Metric::Gainers, OVERVIEW_RANKING_LIMIT),
        overview.top_losers@ == ranking_statement(Metric::Losers, OVERVIEW_RANKING_LIMIT),
        overview.most_active@ == ranking_statement(Metric::Volume, OVERVIEW_RANKING_LIMIT),
{
    MarketOverviewQuery {
        total_companies: plain_statement("SELECT COUNT(*) as count FROM companies"),
        total_price_records: plain_statement("SELECT COUNT(*) as count FROM daily_prices"),
        latest_trading_date: latest_trade_date(),
        top_gainers: top_performers(Metric::Gainers, OVERVIEW_RANKING_LIMIT),
        top_losers: top_performers(Metric::Losers, OVERVIEW_RANKING_LIMIT),
        most_active: top_performers(Metric::Volume, OVERVIEW_RANKING_LIMIT),
    }
}

} // verus!
