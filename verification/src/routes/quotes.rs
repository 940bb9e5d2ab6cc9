//! `GET /api/quotes`

use vstd::prelude::*;

use crate::dto;
use crate::dto::{Quote, QuotesMap};
use crate::state;
use crate::state::AppState;
use crate::text::same_text;

verus! {

/// What a list of named quotes reads as.
pub open spec fn named_views(list: Seq<(String, Quote)>) -> Seq<(Seq<char>, dto::QuoteView)> {
    Seq::new(list.len(), |i: int| (list[i].0@, list[i].1@))
}

/// Whether the entry is the quote of the symbol, under its name.
pub open spec fn is_quote_of(
    s: state::StateView,
    id: i64,
    entry: (Seq<char>, dto::QuoteView),
) -> bool {
    &&& s.quotes.contains_key(id)
    &&& entry == (s.symbols.name(id), dto::quote_dto(s.quotes[id], s.symbols))
}

/// Whether the entry is the quote of some symbol, under its name.
pub open spec fn is_served(s: state::StateView, entry: (Seq<char>, dto::QuoteView)) -> bool {
    exists|id: i64| is_quote_of(s, id, entry)
}

/// Whether some entry has the name.
pub open spec fn has_name(list: Seq<(Seq<char>, dto::QuoteView)>, name: Seq<char>) -> bool {
    exists|i: int| 0 <= i < list.len() && (#[trigger] list[i]).0 == name
}

/// Whether the list serves the quotes by name: no name occurs twice, every
/// entry is the quote of a symbol under its name, and the name of every
/// symbol with a quote occurs.
pub open spec fn serves_quotes(
    s: state::StateView,
    list: Seq<(Seq<char>, dto::QuoteView)>,
) -> bool {
    &&& forall|i: int, j: int|
        0 <= i < j < list.len() ==> (#[trigger] list[i]).0 != (#[trigger] list[j]).0
    &&& forall|i: int| 0 <= i < list.len() ==> is_served(s, #[trigger] list[i])
    &&& forall|id: i64| #[trigger]
        s.quotes.contains_key(id) ==> has_name(list, s.symbols.name(id))
}

/// The quotes by symbol name.
pub fn get_quotes(state: &AppState) -> (out: QuotesMap)
    ensures
        serves_quotes(state@, named_views(out@)),
{
    let quotes = state.quotes.list();
    let mut out: QuotesMap = Vec::new();
    for k in 0..quotes.len()
        invariant
            forall|i: int|
                0 <= i < quotes@.len() ==> state@.quotes.contains_key(
                    (#[trigger] quotes@[i]).symbol_id,
                ) && state@.quotes[quotes@[i].symbol_id] == quotes@[i],
            forall|i: int, j: int|
                0 <= i < j < out@.len() ==> (#[trigger] named_views(out@)[i]).0 != (
                #[trigger] named_views(out@)[j]).0,
            forall|i: int|
                0 <= i < out@.len() ==> is_served(state@, #[trigger] named_views(out@)[i]),
            forall|q: int|
                0 <= q < k ==> has_name(
                    named_views(out@),
                    state@.symbols.name((#[trigger] quotes@[q]).symbol_id),
                ),
    {
        let quote = Quote::from_state(&quotes[k], &state.symbols);
        let ghost before = named_views(out@);
        let ghost entry = (quote.symbol@, quote@);
        let ghost id = quotes@[k as int].symbol_id;
        assert(is_quote_of(state@, id, entry));
        assert(is_served(state@, entry));
        let mut at: usize = 0;
        while at < out.len() && !same_text(out[at].0.as_str(), quote.symbol.as_str())
            invariant
                at <= out@.len(),
                before == named_views(out@),
                entry == (quote.symbol@, quote@),
                forall|i: int| 0 <= i < at ==> (#[trigger] before[i]).0 != entry.0,
            decreases out@.len() - at,
        {
            assert(before[at as int].0 == out@[at as int].0@);
            at = at + 1;
        }
        let key = quote.symbol.clone();
        if at < out.len() {
            assert(before[at as int].0 == entry.0);
            out.set(at, (key, quote));
            assert(named_views(out@) =~= before.update(at as int, entry));
            proof {
                let after = named_views(out@);
                assert forall|i: int, j: int| 0 <= i < j < after.len() implies (
                #[trigger] after[i]).0 != (#[trigger] after[j]).0 by {
                    assert(before[i].0 != before[j].0);
                }
                assert forall|i: int| 0 <= i < after.len() implies is_served(
                    state@,
                    #[trigger] after[i],
                ) by {
                    if i != at {
                        assert(after[i] == before[i]);
                    }
                }
                assert forall|q: int| 0 <= q < k + 1 implies has_name(
                    after,
                    state@.symbols.name((#[trigger] quotes@[q]).symbol_id),
                ) by {
                    if q < k {
                        let i = choose|i: int|
                            0 <= i < before.len() && (#[trigger] before[i]).0
                                == state@.symbols.name(quotes@[q].symbol_id);
                        assert(after[i].0 == before[i].0);
                    } else {
                        assert(after[at as int].0 == entry.0);
                    }
                }
            }
        } else {
            out.push((key, quote));
            assert(named_views(out@) =~= before.push(entry));
            proof {
                let after = named_views(out@);
                assert forall|i: int, j: int| 0 <= i < j < after.len() implies (
                #[trigger] after[i]).0 != (#[trigger] after[j]).0 by {
                    assert(after[i] == before[i]);
                    if j < before.len() {
                        assert(before[i].0 != before[j].0);
                    }
                }
                assert forall|i: int| 0 <= i < after.len() implies is_served(
                    state@,
                    #[trigger] after[i],
                ) by {
                    if i < before.len() {
                        assert(after[i] == before[i]);
                    }
                }
                assert forall|q: int| 0 <= q < k + 1 implies has_name(
                    after,
                    state@.symbols.name((#[trigger] quotes@[q]).symbol_id),
                ) by {
                    if q < k {
                        let i = choose|i: int|
                            0 <= i < before.len() && (#[trigger] before[i]).0
                                == state@.symbols.name(quotes@[q].symbol_id);
                        assert(after[i].0 == before[i].0);
                    } else {
                        assert(after[before.len() as int].0 == entry.0);
                    }
                }
            }
        }
    }
    assert forall|id: i64| #[trigger] state@.quotes.contains_key(id) implies has_name(
        named_views(out@),
        state@.symbols.name(id),
    ) by {
        let q = choose|q: int| 0 <= q < quotes@.len() && (#[trigger] quotes@[q]).symbol_id == id;
        assert(quotes@[q].symbol_id == id);
    }
    out
}

/// Where no other symbol with a quote has the same name, the quote of a
/// symbol is served under its name.
pub proof fn law_every_quote_is_served(
    s: state::StateView,
    list: Seq<(Seq<char>, dto::QuoteView)>,
    id: i64,
)
    requires
        serves_quotes(s, list),
        s.quotes.contains_key(id),
        forall|other: i64| #[trigger]
            s.quotes.contains_key(other) && s.symbols.name(other) == s.symbols.name(id) ==> other
                == id,
    ensures
        list.contains((s.symbols.name(id), dto::quote_dto(s.quotes[id], s.symbols))),
{
    let i = choose|i: int| 0 <= i < list.len() && (#[trigger] list[i]).0 == s.symbols.name(id);
    let owner = choose|owner: i64| is_quote_of(s, owner, list[i]);
    assert(is_quote_of(s, owner, list[i]));
    assert(s.quotes.contains_key(owner));
    assert(owner == id);
}

/// Every entry stands under the name of the symbol of its quote, which is one
/// that has a quote, with the prices of that quote.
pub proof fn law_entries_are_quotes(
    s: state::StateView,
    list: Seq<(Seq<char>, dto::QuoteView)>,
    i: int,
) -> (id: i64)
    requires
        serves_quotes(s, list),
        0 <= i < list.len(),
    ensures
        s.quotes.contains_key(id),
        list[i].0 == s.symbols.name(id),
        list[i].1.symbol == s.symbols.name(s.quotes[id].symbol_id),
        s.quotes[id].bid matches Some(bid) ==> list[i].1.bid == bid,
        s.quotes[id].ask matches Some(ask) ==> list[i].1.ask == ask,
        s.quotes[id].bid is None ==> list[i].1.bid == 0,
        s.quotes[id].ask is None ==> list[i].1.ask == 0,
        s.quotes[id].timestamp_ms matches Some(t) ==> t > 0 ==> list[i].1.time == t,
        forall|j: int| 0 <= j < list.len() && j != i ==> (#[trigger] list[j]).0 != list[i].0,
{
    assert(is_served(s, list[i]));
    let id = choose|id: i64| is_quote_of(s, id, list[i]);
    assert forall|j: int| 0 <= j < list.len() && j != i implies (#[trigger] list[j]).0
        != list[i].0 by {
        if j < i {
            assert(list[j].0 != list[i].0);
        } else {
            assert(list[i].0 != list[j].0);
        }
    }
    id
}

/// Every symbol with a quote is served under its name, and nothing is served
/// where there is no quote.
pub proof fn law_names_with_quotes(
    s: state::StateView,
    list: Seq<(Seq<char>, dto::QuoteView)>,
    id: i64,
) -> (i: int)
    requires
        serves_quotes(s, list),
        s.quotes.contains_key(id),
    ensures
        0 <= i < list.len(),
        list[i].0 == s.symbols.name(id),
{
    assert(has_name(list, s.symbols.name(id)));
    choose|i: int| 0 <= i < list.len() && (#[trigger] list[i]).0 == s.symbols.name(id)
}

} // verus!
