//! Page arithmetic of the list operations: clamping of the requested page
//! and page size, the row offset of a page, and the position of a page
//! within the pages of a result.

use vstd::prelude::*;

verus! {

/// The largest page size a request may ask for.
pub const MAX_LIMIT: u32 = 1000;

/// The page size used when a request names none, or one out of range.
pub const DEFAULT_LIMIT: u32 = 50;

/// One page of a listing, with its position among all pages.
#[derive(Debug, PartialEq, Eq)]
pub struct PaginatedResponse<T> {
    pub data: Vec<T>,
    pub pagination: PaginationMeta,
}

/// Where a page stands within the listing it was cut from.
#[derive(Debug, Clone, Copy, PartialEq, Eq, Structural)]
pub struct PaginationMeta {
    pub page: u32,
    pub limit: u32,
    pub total: u64,
    pub total_pages: u32,
    pub has_next: bool,
    pub has_prev: bool,
}

/// `total` divided by `limit`, rounded up. `limit` is positive.
pub open spec fn ceil_div(total: int, limit: int) -> int {
    if total % limit == 0 {
        total / limit
    } else {
        total / limit + 1
    }
}

/// Number of pages that `total` rows fill at `limit` rows a page, held to
/// the range of `u32`. With a page size of zero no row fits on any page:
/// an empty listing has no page, any other never ends.
pub open spec fn total_pages_for(total: int, limit: int) -> int {
    if limit == 0 {
        if total == 0 {
            0
        } else {
            u32::MAX as int
        }
    } else if ceil_div(total, limit) > u32::MAX {
        u32::MAX as int
    } else {
        ceil_div(total, limit)
    }
}

/// The position data of page `page` among `total` rows at `limit` rows a page.
pub open spec fn page_position(page: u32, limit: u32, total: u64) -> PaginationMeta {
    let total_pages = total_pages_for(total as int, limit as int) as u32;
    PaginationMeta {
        page,
        limit,
        total,
        total_pages,
        has_next: page < total_pages,
        has_prev: page > 1,
    }
}

/// `ceil_div` is the ceiling of the quotient: the least number of pages of
/// `limit` rows that hold `total` rows.
pub proof fn lemma_ceil_div_is_ceiling(total: int, limit: int)
    requires
        total >= 0,
        limit >= 1,
    ensures
        ceil_div(total, limit) >= 0,
        ceil_div(total, limit) * limit >= total,
        (ceil_div(total, limit) - 1) * limit < total,
{
    let q = total / limit;
    let r = total % limit;
    assert(total == q * limit + r && 0 <= r < limit) by (nonlinear_arith)
        requires
            q == total / limit,
            r == total % limit,
            limit >= 1,
    ;
    assert(q >= 0) by (nonlinear_arith)
        requires
            total == q * limit + r,
            0 <= r < limit,
            total >= 0,
            limit >= 1,
    ;
    assert((q + 1) * limit == q * limit + limit) by (nonlinear_arith);
    assert((q - 1) * limit == q * limit - limit) by (nonlinear_arith);
}

/// Page position at the boundaries: the first page has no predecessor, the
/// last page has no successor, and every page before the last has one.
pub proof fn lemma_page_boundaries(page: u32, limit: u32, total: u64)
    ensures
        page <= 1 ==> !page_position(page, limit, total).has_prev,
        page > 1 ==> page_position(page, limit, total).has_prev,
        page == page_position(page, limit, total).total_pages ==> !page_position(
            page,
            limit,
            total,
        ).has_next,
        page < page_position(page, limit, total).total_pages ==> page_position(
            page,
            limit,
            total,
        ).has_next,
{
}

impl<T> PaginatedResponse<T> {
    /// Wraps one page of rows with its position: `total_pages` is `total`
    /// over `limit` rounded up, `has_next` says that a later page exists,
    /// `has_prev` that an earlier one does.
    pub fn new(data: Vec<T>, page: u32, limit: u32, total: u64) -> (response: Self)
        ensures
            response.data == data,
            response.pagination == page_position(page, limit, total),
    {
        let total_pages: u32 = if limit == 0 {
            if total == 0 {
                0
            } else {
                u32::MAX
            }
        } else {
            let per_page: u64 = limit as u64;
            let full: u64 = total / per_page;
            let pages: u64 = if total % per_page == 0 {
                full
            } else {
                assert(full < u64::MAX) by (nonlinear_arith)
                    requires
                        full == total / per_page,
                        total % per_page != 0,
                        per_page >= 1,
                        total <= u64::MAX,
                ;
                full + 1
            };
            if pages > u32::MAX as u64 {
                u32::MAX
            } else {
                pages as u32
            }
        };
        PaginatedResponse {
            data,
            pagination: PaginationMeta {
                page,
                limit,
                total,
                total_pages,
                has_next: page < total_pages,
                has_prev: page > 1,
            },
        }
    }
}

/// The page and page size that a request asks for.
#[derive(Debug, Clone, Copy, PartialEq, Eq, Structural)]
pub struct PaginationQuery {
    pub page: u32,
    pub limit: u32,
}

/// The page used when a request names none.
pub fn default_page() -> (page: u32)
    ensures
        page == 1,
{
    1
}

/// The page size used when a request names none.
pub fn default_limit() -> (limit: u32)
    ensures
        limit == DEFAULT_LIMIT,
{
    DEFAULT_LIMIT
}

/// The page that a requested page resolves to: page zero becomes page one.
pub open spec fn resolved_page(page: u32) -> u32 {
    if page == 0 {
        1
    } else {
        page
    }
}

/// The page size that a requested size resolves to: zero and sizes above
/// [`MAX_LIMIT`] become [`DEFAULT_LIMIT`].
pub open spec fn resolved_limit(limit: u32) -> u32 {
    if limit == 0 || limit > MAX_LIMIT {
        DEFAULT_LIMIT
    } else {
        limit
    }
}

impl PaginationQuery {
    /// Whether the query is in range: a page of at least one and a page
    /// size between one and [`MAX_LIMIT`].
    pub open spec fn in_range(self) -> bool {
        self.page >= 1 && 1 <= self.limit <= MAX_LIMIT
    }

    /// Number of rows that come before the requested page.
    pub fn offset(&self) -> (offset: u32)
        requires
            self.page >= 1,
            (self.page - 1) * self.limit <= u32::MAX,
        ensures
            offset == (self.page - 1) * self.limit,
    {
        (self.page - 1) * self.limit
    }

    /// Replaces out-of-range values by the defaults; values in range stay.
    pub fn validate(&mut self)
        ensures
            final(self).page == resolved_page(old(self).page),
            final(self).limit == resolved_limit(old(self).limit),
            final(self).in_range(),
    {
        if self.page == 0 {
            self.page = 1;
        }
        if self.limit == 0 || self.limit > MAX_LIMIT {
            self.limit = DEFAULT_LIMIT;
        }
    }
}

} // verus!
