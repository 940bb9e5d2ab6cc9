//! `GET /api/trades`

use vstd::prelude::*;

use crate::dto;
use crate::dto::Trade;
use crate::state::AppState;

verus! {

/// How many trades a page has where the request does not say.
pub const DEFAULT_LIMIT: usize = 50;

/// How many trades a page has at most.
pub const MAX_LIMIT: usize = 500;

/// Which page of the history is asked for. Pages are counted from zero.
#[derive(Clone, Copy, Debug)]
pub struct TradesQuery {
    pub page: Option<usize>,
    pub limit: Option<usize>,
}

impl Default for TradesQuery {
    fn default() -> (r: Self)
        ensures
            r.page is None,
            r.limit is None,
    {
        TradesQuery { page: None, limit: None }
    }
}

impl TradesQuery {
    pub open spec fn page_number(self) -> nat {
        self.page.unwrap_or(0) as nat
    }

    /// The size of a page, between one and the maximum.
    pub open spec fn page_size(self) -> nat {
        let limit = self.limit.unwrap_or(DEFAULT_LIMIT);
        if limit < 1 {
            1
        } else if limit > MAX_LIMIT {
            MAX_LIMIT as nat
        } else {
            limit as nat
        }
    }
}

/// A page of the history, the newest trade first.
pub open spec fn page_of(trades: Seq<dto::TradeView>, page: nat, size: nat) -> Seq<dto::TradeView> {
    let start = page * size;
    let count = if start >= trades.len() {
        0
    } else if trades.len() - start < size {
        (trades.len() - start) as nat
    } else {
        size
    };
    Seq::new(count, |i: int| trades[trades.len() - 1 - start - i])
}

/// The requested page of the history.
pub fn list_trades(state: &AppState, q: &TradesQuery) -> (out: Vec<Trade>)
    ensures
        dto::trade_views(out@) == page_of(state@.trades, q.page_number(), q.page_size()),
{
    let page = q.page.unwrap_or(0);
    let wanted = q.limit.unwrap_or(DEFAULT_LIMIT);
    let limit = if wanted < 1 {
        1
    } else if wanted > MAX_LIMIT {
        MAX_LIMIT
    } else {
        wanted
    };
    let n = state.trades.len();
    let mut out: Vec<Trade> = Vec::new();
    let ghost all = state@.trades;
    let ghost want = page_of(all, page as nat, limit as nat);
    assert(all.len() == n);
    match page.checked_mul(limit) {
        Some(start) => {
            if start < n {
                let count = if n - start < limit {
                    n - start
                } else {
                    limit
                };
                assert(want.len() == count);
                for i in 0..count
                    invariant
                        n == state.trades@.len(),
                        all == dto::trade_views(state.trades@),
                        start < n,
                        count <= n - start,
                        start == page * limit,
                        want == page_of(all, page as nat, limit as nat),
                        want.len() == count,
                        out@.len() == i,
                        forall|k: int| 0 <= k < i ==> (#[trigger] out@[k])@ == want[k],
                {
                    let at = n - 1 - start - i;
                    let trade = state.trades[at].clone();
                    out.push(trade);
                }
            }
        },
        None => {},
    }
    assert(dto::trade_views(out@) =~= want);
    out
}

/// No page is longer than its size.
pub proof fn law_pages_are_limited(trades: Seq<dto::TradeView>, q: TradesQuery)
    ensures
        page_of(trades, q.page_number(), q.page_size()).len() <= q.page_size() <= MAX_LIMIT,
        q.page_size() >= 1,
{
}

/// The pages together are the history, the newest trade first: the trade with
/// `k` newer ones stands on the page and at the place that `k` divided by the
/// page size gives.
pub proof fn law_pages_cover_the_history(trades: Seq<dto::TradeView>, size: nat, k: nat)
    requires
        size > 0,
        k < trades.len(),
    ensures
        k % size < page_of(trades, k / size, size).len(),
        page_of(trades, k / size, size)[(k % size) as int] == trades[trades.len() - 1 - k],
{
    vstd::arithmetic::div_mod::lemma_fundamental_div_mod(k as int, size as int);
    assert((k / size) * size == size * (k / size)) by (nonlinear_arith);
}

/// Nothing else is on the pages: the trade at a place of a page is the one
/// with as many newer ones as there are places before it.
pub proof fn law_pages_hold_the_history(trades: Seq<dto::TradeView>, page: nat, size: nat, i: int)
    requires
        0 <= i < page_of(trades, page, size).len(),
    ensures
        page * size + i < trades.len(),
        page_of(trades, page, size)[i] == trades[trades.len() - 1 - (page * size + i)],
{
}

/// A request that does not say otherwise gets the first page of fifty trades.
/// No page has fewer than one place or more than five hundred; within that a
/// page has the places that are asked for.
pub proof fn law_pages_as_asked_for(q: TradesQuery)
    ensures
        q.page is None ==> q.page_number() == 0,
        q.page matches Some(page) ==> q.page_number() == page,
        q.limit is None ==> q.page_size() == 50,
        q.limit matches Some(limit) ==> (limit == 0 ==> q.page_size() == 1) && (1 <= limit <= 500
            ==> q.page_size() == limit) && (limit > 500 ==> q.page_size() == 500),
{
}

/// A page ends early only where the history does.
pub proof fn law_pages_are_full(trades: Seq<dto::TradeView>, page: nat, size: nat)
    ensures
        page * size + size <= trades.len() ==> page_of(trades, page, size).len() == size,
        page * size <= trades.len() < page * size + size ==> page_of(trades, page, size).len()
            == trades.len() - page * size,
        trades.len() <= page * size ==> page_of(trades, page, size).len() == 0,
{
}

} // verus!
