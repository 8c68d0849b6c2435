//! Pagination parameters of list endpoints.
use vstd::prelude::*;

verus! {

/// Page size used where a request names none.
pub const DEFAULT_PAGE_SIZE: u32 = 100;

/// Resolves optional limit/offset into concrete values, defaulting to
/// `DEFAULT_PAGE_SIZE` and `0` respectively.
pub fn resolve_limit_offset(limit: Option<u32>, offset: Option<u32>) -> (r: (u32, u32))
    ensures
        r.0 == (match limit {
            Some(l) => l,
            None => DEFAULT_PAGE_SIZE,
        }),
        r.1 == (match offset {
            Some(o) => o,
            None => 0,
        }),
{
    let l = match limit {
        Some(l) => l,
        None => DEFAULT_PAGE_SIZE,
    };
    let o = match offset {
        Some(o) => o,
        None => 0,
    };
    (l, o)
}

/// Limit/offset pagination parameters for API requests.
#[derive(Debug, Clone, Copy, Default)]
pub struct LimitOffsetPagination {
    pub limit: Option<u32>,
    pub offset: Option<u32>,
}

/// Cursor pagination parameters for API requests.
#[derive(Debug, Clone, Default)]
pub struct CursorPagination {
    pub limit: Option<u32>,
    pub cursor: Option<String>,
}

} // verus!
