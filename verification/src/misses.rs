//! Which symbols are looked up by id, and which of these lookups are the first
//! to find no name.

use vstd::prelude::*;

use crate::bot_loop;
use crate::bot_loop::{Message, Payload};
use crate::proto::POSITION_STATUS_CLOSED;
use crate::records;
use crate::state;
use crate::state::AppState;

verus! {

// ------------------------------------------------------------------ messages

/// The symbols that are looked up for a message, in order: that of a tick with
/// both prices, and of an execution that of the trade that it completes or of
/// the position that it updates, and that of the order.
pub open spec fn message_symbols(msg: Message) -> Seq<i64> {
    match msg.payload {
        Payload::Spot(spot) => if spot.bid is Some && spot.ask is Some {
            seq![spot.symbol_id]
        } else {
            Seq::empty()
        },
        Payload::Execution(exec) => {
            let of_position = match exec.position {
                Some(pos) => if !bot_loop::is_closed(pos) {
                    seq![pos.trade_data.symbol_id]
                } else {
                    match exec.deal {
                        Some(deal) => if deal.close_position_detail is Some {
                            seq![deal.symbol_id]
                        } else {
                            Seq::empty()
                        },
                        None => Seq::empty(),
                    }
                },
                None => Seq::empty(),
            };
            let of_order = match exec.order {
                Some(order) => seq![order.trade_data.symbol_id],
                None => Seq::empty(),
            };
            of_position + of_order
        },
        _ => Seq::empty(),
    }
}

fn symbols_of_message(msg: &Message) -> (out: Vec<i64>)
    ensures
        out@ == message_symbols(*msg),
{
    let mut out: Vec<i64> = Vec::new();
    match &msg.payload {
        Payload::Spot(spot) => {
            if spot.bid.is_some() && spot.ask.is_some() {
                out.push(spot.symbol_id);
            }
        },
        Payload::Execution(exec) => {
            if let Some(pos) = &exec.position {
                if pos.position_status != POSITION_STATUS_CLOSED {
                    out.push(pos.trade_data.symbol_id);
                } else if let Some(deal) = &exec.deal {
                    if deal.close_position_detail.is_some() {
                        out.push(deal.symbol_id);
                    }
                }
            }
            if let Some(order) = &exec.order {
                out.push(order.trade_data.symbol_id);
            }
        },
        _ => {},
    }
    assert(out@ =~= message_symbols(*msg));
    out
}

/// Notes the lookups for a message, and gives the symbols whose lookup is the
/// first to find no name.
pub fn note_message(state: &mut AppState, msg: &Message) -> (first: Vec<i64>)
    ensures
        first@ == old(state)@.symbols.first_misses(message_symbols(*msg)),
        final(state)@ == (state::StateView {
            symbols: old(state)@.symbols.noting(message_symbols(*msg)),
            ..old(state)@
        }),
{
    let ids = symbols_of_message(msg);
    state.symbols.note_misses(&ids)
}

// ------------------------------------------------------------------- answers

/// An answer of the API that names symbols.
#[derive(Clone, Copy, Debug)]
pub enum Answer {
    /// All positions.
    Positions,
    /// All orders.
    Orders,
    /// All quotes.
    Quotes,
    /// The position with the id.
    Position { position_id: i64 },
    /// The order with the id.
    Order { order_id: i64 },
    /// The newest order.
    NewestOrder,
}

/// Whether these symbols are looked up for the answer, in this order. The
/// quotes are walked in an order that is left open.
pub open spec fn looks_up(s: state::StateView, answer: Answer, ids: Seq<i64>) -> bool {
    match answer {
        Answer::Positions => ids == Seq::new(
            s.positions.len(),
            |i: int| s.positions[i].symbol_id,
        ),
        Answer::Orders => ids == Seq::new(s.orders.len(), |i: int| s.orders[i].symbol_id),
        Answer::Quotes => ids.no_duplicates() && forall|id: i64| #[trigger]
            ids.contains(id) <==> s.quotes.contains_key(id),
        Answer::Position { position_id } => ids == (if records::listed(s.positions, position_id) {
            seq![s.positions[records::first(s.positions, position_id)].symbol_id]
        } else {
            Seq::empty()
        }),
        Answer::Order { order_id } => ids == (if records::listed(s.orders, order_id) {
            seq![s.orders[records::first(s.orders, order_id)].symbol_id]
        } else {
            Seq::empty()
        }),
        Answer::NewestOrder => ids == (if s.orders.len() > 0 {
            seq![s.orders.last().symbol_id]
        } else {
            Seq::empty()
        }),
    }
}

fn symbols_of_quotes(state: &AppState) -> (out: Vec<i64>)
    ensures
        looks_up(state@, Answer::Quotes, out@),
{
    let quotes = state.quotes.list();
    let mut out: Vec<i64> = Vec::new();
    for i in 0..quotes.len()
        invariant
            out@.len() == i,
            forall|k: int| 0 <= k < i ==> #[trigger] out@[k] == quotes@[k].symbol_id,
    {
        out.push(quotes[i].symbol_id);
    }
    assert forall|i: int, j: int|
        0 <= i < out@.len() && 0 <= j < out@.len() && i != j implies out@[i] != out@[j] by {
        if i < j {
            assert(quotes@[i].symbol_id != quotes@[j].symbol_id);
        } else {
            assert(quotes@[j].symbol_id != quotes@[i].symbol_id);
        }
    }
    assert forall|id: i64| #[trigger] out@.contains(id) <==> state@.quotes.contains_key(id) by {
        if out@.contains(id) {
            let k = choose|k: int| 0 <= k < out@.len() && out@[k] == id;
            assert(quotes@[k].symbol_id == id);
        }
        if state@.quotes.contains_key(id) {
            let k = choose|k: int| 0 <= k < quotes@.len() && (#[trigger] quotes@[k]).symbol_id == id;
            assert(out@[k] == id);
        }
    }
    out
}

fn symbols_of_answer(state: &AppState, answer: &Answer) -> (out: Vec<i64>)
    ensures
        looks_up(state@, *answer, out@),
{
    let mut out: Vec<i64> = Vec::new();
    match answer {
        Answer::Positions => {
            let ghost all = Seq::new(
                state@.positions.len(),
                |i: int| state@.positions[i].symbol_id,
            );
            for i in 0..state.positions.len()
                invariant
                    all == Seq::new(
                        state@.positions.len(),
                        |i: int| state@.positions[i].symbol_id,
                    ),
                    out@ == all.take(i as int),
            {
                out.push(state.positions[i].symbol_id);
                assert(out@ =~= all.take(i + 1));
            }
            assert(all.take(all.len() as int) =~= all);
        },
        Answer::Orders => {
            let ghost all = Seq::new(state@.orders.len(), |i: int| state@.orders[i].symbol_id);
            for i in 0..state.orders.len()
                invariant
                    all == Seq::new(state@.orders.len(), |i: int| state@.orders[i].symbol_id),
                    out@ == all.take(i as int),
            {
                out.push(state.orders[i].symbol_id);
                assert(out@ =~= all.take(i + 1));
            }
            assert(all.take(all.len() as int) =~= all);
        },
        Answer::Quotes => {
            return symbols_of_quotes(state);
        },
        Answer::Position { position_id } => {
            if let Some(i) = records::find(&state.positions, *position_id) {
                out.push(state.positions[i].symbol_id);
            }
        },
        Answer::Order { order_id } => {
            if let Some(i) = records::find(&state.orders, *order_id) {
                out.push(state.orders[i].symbol_id);
            }
        },
        Answer::NewestOrder => {
            let n = state.orders.len();
            if n > 0 {
                out.push(state.orders[n - 1].symbol_id);
            }
        },
    }
    out
}

/// Notes the lookups for an answer, and gives the symbols whose lookup is the
/// first to find no name.
pub fn note_answer(state: &mut AppState, answer: &Answer) -> (first: Vec<i64>)
    ensures
        exists|ids: Seq<i64>| #[trigger]
            looks_up(old(state)@, *answer, ids) && first@ == old(state)@.symbols.first_misses(ids)
                && final(state)@ == (state::StateView {
                symbols: old(state)@.symbols.noting(ids),
                ..old(state)@
            }),
{
    let ids = symbols_of_answer(state, answer);
    let first = state.symbols.note_misses(&ids);
    assert(looks_up(old(state)@, *answer, ids@));
    first
}

// --------------------------------------------------------------------- laws

/// A tick is looked up where it has both prices, and then by its symbol.
pub proof fn law_lookup_of_a_tick(msg: Message, spot: crate::proto::SpotEvent)
    requires
        msg.payload == Payload::Spot(spot),
    ensures
        spot.bid is Some && spot.ask is Some ==> message_symbols(msg) == seq![spot.symbol_id],
        spot.bid is None || spot.ask is None ==> message_symbols(msg).len() == 0,
{
}

/// Of an execution, an open position is looked up, or the deal that completes
/// the trade of a closed one, and then the order. No other message is looked
/// up.
pub proof fn law_lookups_of_an_execution(
    msg: Message,
    exec: crate::proto::ExecutionEvent,
    other: Message,
)
    requires
        msg.payload == Payload::Execution(exec),
        other.payload !is Spot && other.payload !is Execution,
    ensures
        ({
            let ids = message_symbols(msg);
            &&& exec.order matches Some(order) ==> ids.len() > 0 && ids.last()
                == order.trade_data.symbol_id
            &&& exec.position matches Some(pos) ==> pos.position_status != POSITION_STATUS_CLOSED
                ==> ids.len() > 0 && ids[0] == pos.trade_data.symbol_id
            &&& match (exec.position, exec.deal) {
                (Some(pos), Some(deal)) => pos.position_status == POSITION_STATUS_CLOSED
                    && deal.close_position_detail is Some ==> ids.len() > 0 && ids[0]
                    == deal.symbol_id,
                _ => true,
            }
            &&& ids.len() == (match (exec.position, exec.deal) {
                (Some(pos), Some(deal)) => if pos.position_status != POSITION_STATUS_CLOSED
                    || deal.close_position_detail is Some {
                    1nat
                } else {
                    0nat
                },
                (Some(pos), None) => if pos.position_status != POSITION_STATUS_CLOSED {
                    1nat
                } else {
                    0nat
                },
                (None, _) => 0nat,
            }) + (if exec.order is Some {
                1nat
            } else {
                0nat
            })
        }),
        message_symbols(other).len() == 0,
{
}

/// For an answer with all positions or orders each of them is looked up, in
/// order.
pub proof fn law_lookups_of_lists(s: state::StateView, ids: Seq<i64>, i: int)
    ensures
        looks_up(s, Answer::Positions, ids) ==> ids.len() == s.positions.len() && (0 <= i
            < ids.len() ==> ids[i] == s.positions[i].symbol_id),
        looks_up(s, Answer::Orders, ids) ==> ids.len() == s.orders.len() && (0 <= i < ids.len()
            ==> ids[i] == s.orders[i].symbol_id),
        looks_up(s, Answer::Quotes, ids) ==> (0 <= i < ids.len() ==> s.quotes.contains_key(ids[i])),
{
    if looks_up(s, Answer::Quotes, ids) && 0 <= i < ids.len() {
        assert(ids.contains(ids[i]));
    }
}

/// For an answer with one record its symbol is looked up, where there is such
/// a record.
pub proof fn law_lookups_of_records(s: state::StateView, ids: Seq<i64>, id: i64, k: int)
    ensures
        looks_up(s, Answer::Position { position_id: id }, ids) && records::is_first(
            s.positions,
            id,
            k,
        ) ==> ids == seq![s.positions[k].symbol_id],
        looks_up(s, Answer::Order { order_id: id }, ids) && records::is_first(s.orders, id, k)
            ==> ids == seq![s.orders[k].symbol_id],
        looks_up(s, Answer::Position { position_id: id }, ids) && !records::listed(s.positions, id)
            ==> ids.len() == 0,
        looks_up(s, Answer::Order { order_id: id }, ids) && !records::listed(s.orders, id)
            ==> ids.len() == 0,
        looks_up(s, Answer::NewestOrder, ids) && s.orders.len() > 0 ==> ids
            == seq![s.orders.last().symbol_id],
{
    if records::is_first(s.positions, id, k) {
        records::lemma_first(s.positions, id, k);
    }
    if records::is_first(s.orders, id, k) {
        records::lemma_first(s.orders, id, k);
    }
}

} // verus!
