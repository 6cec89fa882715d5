//! The part of a listing that a query asks for.

use vstd::prelude::*;

verus! {

/// How many records a listing returns where the query sets no limit.
pub const DEFAULT_PAGE_LIMIT: i64 = 50;

/// How many records a listing of the top scores returns where the query sets
/// no limit.
pub const DEFAULT_TOP_LIMIT: i64 = 10;

/// A window into a listing: at most `limit` records after the first `offset`.
#[derive(Debug, Clone, Copy, PartialEq, Eq, Structural)]
pub struct Page {
    pub limit: i64,
    pub offset: i64,
}

impl Page {
    /// The window that a query asks for: its own limit and offset where it
    /// gives them, else 50 records from the start.
    pub fn from_query(limit: Option<i64>, offset: Option<i64>) -> (page: Page)
        ensures
            page.limit == match limit {
                Some(l) => l,
                None => DEFAULT_PAGE_LIMIT,
            },
            page.offset == match offset {
                Some(o) => o,
                None => 0,
            },
    {
        Page {
            limit: match limit {
                Some(l) => l,
                None => DEFAULT_PAGE_LIMIT,
            },
            offset: match offset {
                Some(o) => o,
                None => 0,
            },
        }
    }

    /// The number of top scores that a query asks for: its own limit where
    /// it gives one, else 10.
    pub fn top_limit(limit: Option<i64>) -> (count: i64)
        ensures
            count == match limit {
                Some(l) => l,
                None => DEFAULT_TOP_LIMIT,
            },
    {
        match limit {
            Some(l) => l,
            None => DEFAULT_TOP_LIMIT,
        }
    }
}

} // verus!
