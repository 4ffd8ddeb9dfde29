//! The parameters of each list operation, as a request carries them.

use vstd::prelude::*;

use super::pagination::PaginationQuery;

verus! {

/// The largest number of rows a ranking request may ask for.
pub const MAX_RANKING_LIMIT: u32 = 100;

/// The number of rows a ranking returns when the request names none, or
/// one out of range.
pub const DEFAULT_RANKING_LIMIT: u32 = 10;

/// Parameters of the company listing.
#[derive(Debug)]
pub struct CompaniesQuery {
    pub pagination: PaginationQuery,
    pub search: Option<String>,
    pub series: Option<String>,
}

/// Parameters of the price history of one symbol.
#[derive(Debug)]
pub struct StockPricesQuery {
    pub pagination: PaginationQuery,
    pub from_date: Option<String>,
    pub to_date: Option<String>,
}

/// Parameters of the latest-prices snapshot.
#[derive(Debug)]
pub struct LatestPricesQuery {
    pub pagination: PaginationQuery,
    pub date: Option<String>,
    pub series: Option<String>,
}

/// Parameters of the company search.
#[derive(Debug)]
pub struct SearchQuery {
    pub pagination: PaginationQuery,
    pub q: String,
}

/// Parameters of a ranking.
#[derive(Debug)]
pub struct TopPerformersQuery {
    pub limit: u32,
    pub period: Option<String>,
    pub metric: Option<String>,
}

/// The number of rows a ranking returns when the request names none.
pub fn default_limit_10() -> (limit: u32)
    ensures
        limit == DEFAULT_RANKING_LIMIT,
{
    DEFAULT_RANKING_LIMIT
}

/// The row count that a requested count resolves to: zero and counts above
/// [`MAX_RANKING_LIMIT`] become [`DEFAULT_RANKING_LIMIT`].
pub open spec fn resolved_ranking_limit(limit: u32) -> u32 {
    if limit == 0 || limit > MAX_RANKING_LIMIT {
        DEFAULT_RANKING_LIMIT
    } else {
        limit
    }
}

impl TopPerformersQuery {
    /// Replaces an out-of-range row count by the default; nothing else changes.
    pub fn validate(&mut self)
        ensures
            final(self).limit == resolved_ranking_limit(old(self).limit),
            1 <= final(self).limit <= MAX_RANKING_LIMIT,
            final(self).period == old(self).period,
            final(self).metric == old(self).metric,
    {
        if self.limit == 0 || self.limit > MAX_RANKING_LIMIT {
            self.limit = DEFAULT_RANKING_LIMIT;
        }
    }
}

} // verus!
