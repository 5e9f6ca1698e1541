use vstd::prelude::*;

verus! {

/// Offset of the first item of a page when the request names none.
pub const DEFAULT_PAGINATION_OFFSET: u32 = 0;

/// Number of items of a page when the request names none.
pub const DEFAULT_PAGINATION_LIMIT: u32 = 25;

/// Largest number of items that a page may hold.
pub const MAX_PAGINATION_LIMIT: u32 = 1000;

/// Identifier of a wallet session.
pub type SessionId = String;

/// A request for a page of the pending transactions of a wallet.
#[derive(Clone, Debug, PartialEq, Eq)]
pub struct GetPendingTransactionsRequest {
    pub session_id: SessionId,
    pub wallet_id: String,
    pub offset: Option<u32>,
    pub limit: Option<u32>,
}

/// The offset of the page: the one asked for, else the default.
pub open spec fn spec_page_offset(offset: Option<u32>) -> u32 {
    match offset {
        Some(o) => o,
        None => DEFAULT_PAGINATION_OFFSET,
    }
}

/// The size of the page: the one asked for, else the default, and never
/// more than the largest allowed.
pub open spec fn spec_page_limit(limit: Option<u32>) -> u32 {
    let asked = match limit {
        Some(l) => l,
        None => DEFAULT_PAGINATION_LIMIT,
    };
    if asked <= MAX_PAGINATION_LIMIT {
        asked
    } else {
        MAX_PAGINATION_LIMIT
    }
}

impl GetPendingTransactionsRequest {
    /// The offset and the size of the page that the request stands for.
    pub fn pagination(&self) -> (r: (u32, u32))
        ensures
            r == (spec_page_offset(self.offset), spec_page_limit(self.limit)),
    {
        let offset = match self.offset {
            Some(o) => o,
            None => DEFAULT_PAGINATION_OFFSET,
        };
        let asked = match self.limit {
            Some(l) => l,
            None => DEFAULT_PAGINATION_LIMIT,
        };
        let limit = if asked <= MAX_PAGINATION_LIMIT {
            asked
        } else {
            MAX_PAGINATION_LIMIT
        };
        (offset, limit)
    }
}

} // verus!
