//! Pagination of list reads.
use vstd::prelude::*;
use crate::errors::GrantError;

verus! {

/// The largest page size a list read accepts.
pub const PAGINATE_MAX_LIMIT: u32 = 100;

pub fn default_page() -> (r: u32)
    ensures
        r == 1,
{
    1
}

pub fn default_limit() -> (r: u32)
    ensures
        r == 20,
{
    20
}

pub fn default_sort_order() -> (r: String)
    ensures
        r@ == "asc"@,
{
    "asc".to_owned()
}

/// A page request: pages are numbered from 1.
#[derive(Debug, Clone, Copy, PartialEq, Eq, Structural)]
pub struct PaginateQuery {
    pub page: u32,
    pub limit: u32,
}

impl Default for PaginateQuery {
    fn default() -> (r: Self)
        ensures
            r.page == 1,
            r.limit == 20,
    {
        PaginateQuery { page: default_page(), limit: default_limit() }
    }
}

impl PaginateQuery {
    /// How many rows come before the page: `(page - 1) * limit`.
    pub open spec fn spec_offset(self) -> int {
        (self.page - 1) * self.limit
    }

    pub fn offset(&self) -> (r: u64)
        requires
            self.page >= 1,
        ensures
            r == self.spec_offset(),
    {
        let p = (self.page - 1) as u64;
        let l = self.limit as u64;
        assert(p * l <= 0xffff_ffff * 0xffff_ffff) by (nonlinear_arith)
            requires
                p <= 0xffff_ffff,
                l <= 0xffff_ffff,
        ;
        p * l
    }
}

/// Accepts a page request whose page is at least 1 and whose size lies
/// between 1 and the largest size accepted.
pub fn check_page(filters: &PaginateQuery) -> (r: Result<(), GrantError>)
    ensures
        r == if filters.page == 0 {
            Err(GrantError::InvalidPage)
        } else if filters.limit == 0 || filters.limit > PAGINATE_MAX_LIMIT {
            Err(GrantError::InvalidLimit)
        } else {
            Ok(())
        },
{
    if filters.page == 0 {
        return Err(GrantError::InvalidPage);
    }
    if filters.limit == 0 || filters.limit > PAGINATE_MAX_LIMIT {
        return Err(GrantError::InvalidLimit);
    }
    Ok(())
}

/// Where a page lies in a list of `n` rows: from `lo` up to `hi`.
pub open spec fn page_bounds(n: int, offset: int, limit: int) -> (int, int) {
    let lo = if offset < n { offset } else { n };
    let hi = if offset + limit < n { offset + limit } else { n };
    (lo, hi)
}

pub fn page_range(n: usize, filters: &PaginateQuery) -> (r: (usize, usize))
    requires
        filters.page >= 1,
    ensures
        r.0 == page_bounds(n as int, filters.spec_offset(), filters.limit as int).0,
        r.1 == page_bounds(n as int, filters.spec_offset(), filters.limit as int).1,
        r.0 <= r.1 <= n,
{
    let offset = filters.offset();
    let lo: u64 = if offset < n as u64 { offset } else { n as u64 };
    let end: u128 = offset as u128 + filters.limit as u128;
    let hi: u64 = if end < n as u128 { end as u64 } else { n as u64 };
    (lo as usize, hi as usize)
}

/// What a list read reports of its pagination.
#[derive(Debug, Clone, Copy, PartialEq, Eq, Structural)]
pub struct PaginationInfo {
    pub page: u32,
    pub limit: u32,
    pub total: u64,
}

/// One page of a list read.
#[derive(Debug)]
pub struct PaginatedResponse<T> {
    pub data: Vec<T>,
    pub pagination: PaginationInfo,
}

} // verus!
