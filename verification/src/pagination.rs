//! Offset/page-size math and the result envelope shared by all list queries.
//!
//! Pages are 1-based; `offset = (page - 1) * per_page`. The envelope always
//! carries the requested page and page size, even when no items matched, and
//! `total_items` is the full matching-row count independent of the window.

use vstd::prelude::*;

verus! {

#[derive(Clone, Copy)]
pub struct Pagination {
    pub page: u32,
    pub per_page: u32,
}

impl Pagination {
    /// Callers must supply a 1-based page and a positive page size.
    pub open spec fn wf(self) -> bool {
        self.page >= 1 && self.per_page >= 1
    }
}

/// Where page `page` starts in a collection of `n` items, clamped to `n`.
pub open spec fn page_start(n: int, page: int, per: int) -> int {
    let off = (page - 1) * per;
    if off <= n {
        off
    } else {
        n
    }
}

/// How many items page `page` holds in a collection of `n` items.
pub open spec fn page_count(n: int, page: int, per: int) -> int {
    let s = page_start(n, page, per);
    if per <= n - s {
        per
    } else {
        n - s
    }
}

/// How many pages a collection of `n` items has: `ceil(n / per)`.
pub open spec fn num_pages(n: int, per: int) -> int {
    (n + per - 1) / per
}

/// The window of `s` that page `page` shows.
pub open spec fn page_of<T>(s: Seq<T>, page: int, per: int) -> Seq<T> {
    let start = page_start(s.len() as int, page, per);
    s.subrange(start, start + page_count(s.len() as int, page, per))
}

/// For `n` stored items and page size `per`, `num_pages(n, per)` pages
/// exist: a page up to that number holds `min(per, n - (page - 1) * per)`
/// items, and a page beyond it holds none.
pub proof fn lemma_pagination_correct(n: int, page: int, per: int)
    requires
        n >= 0,
        page >= 1,
        per >= 1,
    ensures
        1 <= page <= num_pages(n, per) ==> page_count(n, page, per) == if per <= n - (page - 1)
            * per {
            per
        } else {
            n - (page - 1) * per
        },
        page > num_pages(n, per) ==> page_count(n, page, per) == 0,
        n > 0 ==> num_pages(n, per) >= 1,
        num_pages(n, per) * per >= n,
    decreases n,
{
    assert((page - 1) * per >= 0) by (nonlinear_arith)
        requires
            page >= 1,
            per >= 1,
    ;
    if page <= num_pages(n, per) {
        // Inside the last page: the offset lies strictly below n, so no
        // clamping happens and the stated count is exact.
        assert((page - 1) * per <= (num_pages(n, per) - 1) * per) by (nonlinear_arith)
            requires
                per >= 1,
                page <= num_pages(n, per),
        ;
        assert((num_pages(n, per) - 1) * per <= n - 1) by (nonlinear_arith)
            requires
                per >= 1,
                n >= 0,
                num_pages(n, per) == (n + per - 1) / per,
        ;
    } else {
        // Beyond the last page: the offset reaches n, so the window is empty.
        assert((page - 1) * per >= num_pages(n, per) * per) by (nonlinear_arith)
            requires
                per >= 1,
                page >= num_pages(n, per) + 1,
        ;
        assert(num_pages(n, per) * per >= n) by (nonlinear_arith)
            requires
                per >= 1,
                n >= 0,
                num_pages(n, per) == (n + per - 1) / per,
        ;
    }
    assert(num_pages(n, per) * per >= n) by (nonlinear_arith)
        requires
            per >= 1,
            n >= 0,
            num_pages(n, per) == (n + per - 1) / per,
    ;
    assert(n > 0 ==> num_pages(n, per) >= 1) by (nonlinear_arith)
        requires
            per >= 1,
            n >= 0,
            num_pages(n, per) == (n + per - 1) / per,
    ;
}

/// The start index and length of the window that `pagination` selects in a
/// collection of `n` items.
pub fn page_bounds(n: usize, pagination: &Pagination) -> (r: (usize, usize))
    requires
        pagination.wf(),
    ensures
        r.0 == page_start(n as int, pagination.page as int, pagination.per_page as int),
        r.1 == page_count(n as int, pagination.page as int, pagination.per_page as int),
        r.0 + r.1 <= n,
{
    proof {
        assert((pagination.page - 1) * (pagination.per_page as int) <= (u32::MAX - 1) * (
        u32::MAX as int)) by (nonlinear_arith)
            requires
                1 <= pagination.page <= u32::MAX,
                1 <= pagination.per_page <= u32::MAX,
        ;
    }
    let off: u64 = (pagination.page as u64 - 1) * (pagination.per_page as u64);
    let start: usize = if off <= n as u64 {
        off as usize
    } else {
        n
    };
    let rest = n - start;
    let count: usize = if (pagination.per_page as u64) <= rest as u64 {
        pagination.per_page as usize
    } else {
        rest
    };
    (start, count)
}

#[derive(Debug)]
pub struct PaginationResult<T> {
    pub items: Vec<T>,
    pub items_count: u32,
    pub total_items: u32,
    pub current_page: u32,
    pub per_page: u32,
}

impl<T> PaginationResult<T> {
    /// The envelope is consistent: `items_count` is the number of items
    /// carried.
    pub open spec fn wf(self) -> bool {
        self.items_count == self.items@.len()
    }
}

impl PaginationResult<()> {
    /// An empty envelope for a window over `total_items` matching rows.
    pub fn empty(pagination: &Pagination, total_items: u32) -> (r: PaginationResult<()>)
        ensures
            r.items@.len() == 0,
            r.items_count == 0,
            r.total_items == total_items,
            r.current_page == pagination.page,
            r.per_page == pagination.per_page,
            r.wf(),
    {
        PaginationResult {
            items: Vec::new(),
            items_count: 0,
            total_items,
            current_page: pagination.page,
            per_page: pagination.per_page,
        }
    }

    /// The same envelope, now carrying the page's items.
    pub fn with_data<T>(&self, items: Vec<T>) -> (r: PaginationResult<T>)
        requires
            items@.len() <= u32::MAX,
        ensures
            r.items == items,
            r.items_count == items@.len(),
            r.total_items == self.total_items,
            r.current_page == self.current_page,
            r.per_page == self.per_page,
            r.wf(),
    {
        let items_count = items.len() as u32;
        PaginationResult {
            items,
            items_count,
            total_items: self.total_items,
            current_page: self.current_page,
            per_page: self.per_page,
        }
    }
}

} // verus!
