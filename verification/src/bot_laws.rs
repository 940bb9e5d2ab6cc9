//! What holds of the bot over more than one event or function.

use vstd::prelude::*;

use crate::bot_loop;
use crate::bot_loop::{Message, Payload, Phase, RunEvent};
use crate::dto;
use crate::proto;
use crate::proto::{ExecutionEvent, LightSymbol, NewOrderReq, ProtoPosition, Trader};
use crate::records;
use crate::records::Record;
use crate::state;
use crate::state::{BotCommand, TRADES_CAPACITY};
use crate::symbols;

verus! {

// --------------------------------------------------------------- executions

/// A position that the broker reports as closed is no longer listed, and one
/// that it reports as anything else is listed as reported.
pub proof fn law_position_follows_the_broker(
    s: state::StateView,
    exec: ExecutionEvent,
    pos: ProtoPosition,
)
    requires
        exec.position == Some(pos),
    ensures
        bot_loop::is_closed(pos) ==> !records::listed(
            bot_loop::after_execution(s, exec).positions,
            pos.position_id,
        ),
        !bot_loop::is_closed(pos) ==> bot_loop::after_execution(s, exec).positions.contains(
            state::position_of(pos),
        ),
{
    records::lemma_done_is_gone(s.positions, state::position_of(pos));
    records::lemma_open_is_listed(s.positions, state::position_of(pos));
}

/// An order that is filled, cancelled, expired or rejected is no longer
/// listed, and one in any other status is listed as reported.
pub proof fn law_order_follows_the_broker(
    s: state::StateView,
    exec: ExecutionEvent,
    order: proto::ProtoOrder,
)
    requires
        exec.order == Some(order),
    ensures
        bot_loop::is_terminal(order) ==> !records::listed(
            bot_loop::after_execution(s, exec).orders,
            order.order_id,
        ),
        !bot_loop::is_terminal(order) ==> bot_loop::after_execution(s, exec).orders.contains(
            state::order_of(order),
        ),
{
    records::lemma_done_is_gone(s.orders, state::order_of(order));
    records::lemma_open_is_listed(s.orders, state::order_of(order));
}

/// Positions and orders other than those of the execution stay as they are,
/// and in the same order.
pub proof fn law_other_records_stay(s: state::StateView, exec: ExecutionEvent)
    ensures
        match exec.position {
            Some(pos) => records::others(
                bot_loop::after_execution(s, exec).positions,
                pos.position_id,
            ) == records::others(s.positions, pos.position_id),
            None => bot_loop::after_execution(s, exec).positions == s.positions,
        },
        match exec.order {
            Some(order) => records::others(
                bot_loop::after_execution(s, exec).orders,
                order.order_id,
            ) == records::others(s.orders, order.order_id),
            None => bot_loop::after_execution(s, exec).orders == s.orders,
        },
{
    if let Some(pos) = exec.position {
        records::lemma_others_kept(
            s.positions,
            state::position_of(pos),
            bot_loop::is_closed(pos),
        );
    }
    if let Some(order) = exec.order {
        records::lemma_others_kept(s.orders, state::order_of(order), bot_loop::is_terminal(order));
    }
}

/// Where no two positions and no two orders share an id, none do after a
/// message either.
pub proof fn law_ids_stay_unique(s: state::StateView, msg: Message)
    requires
        records::unique(s.positions),
        records::unique(s.orders),
    ensures
        records::unique(bot_loop::after_message(s, msg).positions),
        records::unique(bot_loop::after_message(s, msg).orders),
{
    if let Payload::Execution(exec) = msg.payload {
        if let Some(pos) = exec.position {
            records::lemma_unique_kept(
                s.positions,
                state::position_of(pos),
                bot_loop::is_closed(pos),
            );
        }
        if let Some(order) = exec.order {
            records::lemma_unique_kept(
                s.orders,
                state::order_of(order),
                bot_loop::is_terminal(order),
            );
        }
    }
}

/// An execution that is reported twice leaves the positions and orders that
/// it leaves when reported once.
pub proof fn law_repeated_execution(s: state::StateView, exec: ExecutionEvent)
    ensures
        ({
            let once = bot_loop::after_execution(s, exec);
            let twice = bot_loop::after_execution(once, exec);
            twice.positions == once.positions && twice.orders == once.orders
        }),
{
    if let Some(pos) = exec.position {
        records::lemma_update_twice(
            s.positions,
            state::position_of(pos),
            bot_loop::is_closed(pos),
        );
    }
    if let Some(order) = exec.order {
        records::lemma_update_twice(s.orders, state::order_of(order), bot_loop::is_terminal(order));
    }
}

// ------------------------------------------------------------------ history

/// A trade that is added is the newest of the history. The others stay in
/// order, and all of them stay unless the history is full: then the oldest
/// goes.
pub proof fn law_history_keeps_the_newest(
    trades: Seq<dto::TradeView>,
    trade: dto::TradeView,
)
    requires
        trades.len() <= TRADES_CAPACITY,
    ensures
        bot_loop::with_trade(trades, trade).len() <= TRADES_CAPACITY,
        bot_loop::with_trade(trades, trade).last() == trade,
        bot_loop::with_trade(trades, trade).drop_last() == (if trades.len() < TRADES_CAPACITY {
            trades
        } else {
            trades.skip(1)
        }),
{
    let after = bot_loop::with_trade(trades, trade);
    assert(after.drop_last() =~= if trades.len() < TRADES_CAPACITY {
        trades
    } else {
        trades.skip(1)
    });
}

/// The history never outgrows its capacity.
pub proof fn law_history_is_bounded(s: state::StateView, event: RunEvent)
    requires
        s.trades.len() <= TRADES_CAPACITY,
    ensures
        bot_loop::after_event(s, event).trades.len() <= TRADES_CAPACITY,
{
}

/// Whether the event is a closing deal on a position that the broker reports
/// as closed.
pub open spec fn completes_a_trade(event: RunEvent) -> bool {
    match event {
        RunEvent::Received(msg) => match msg.payload {
            Payload::Execution(exec) => match (exec.position, exec.deal) {
                (Some(pos), Some(deal)) => bot_loop::is_closed(pos)
                    && deal.close_position_detail is Some,
                _ => false,
            },
            _ => false,
        },
        _ => false,
    }
}

/// Nothing but a closing deal on a position that the broker reports as closed
/// adds to the history.
pub proof fn law_only_closing_deals_are_recorded(s: state::StateView, event: RunEvent)
    requires
        bot_loop::after_event(s, event).trades != s.trades,
    ensures
        completes_a_trade(event),
{
}

// ------------------------------------------------------------------- events

/// Whether the event is a tick of the symbol.
pub open spec fn is_tick_of(event: RunEvent, symbol_id: i64) -> bool {
    match event {
        RunEvent::Received(msg) => match msg.payload {
            Payload::Spot(spot) => spot.symbol_id == symbol_id,
            _ => false,
        },
        _ => false,
    }
}

/// No event of the main loop changes the account, its id or the catalog. Of
/// the quotes, a tick changes that of its symbol and no other.
pub proof fn law_what_events_leave_alone(s: state::StateView, event: RunEvent, symbol_id: i64)
    ensures
        bot_loop::after_event(s, event).account_id == s.account_id,
        bot_loop::after_event(s, event).account == s.account,
        bot_loop::after_event(s, event).symbols == s.symbols,
        !is_tick_of(event, symbol_id) ==> {
            let quotes = bot_loop::after_event(s, event).quotes;
            &&& quotes.contains_key(symbol_id) == s.quotes.contains_key(symbol_id)
            &&& quotes.contains_key(symbol_id) ==> quotes[symbol_id] == s.quotes[symbol_id]
        },
{
}

/// The quote of a tick is the quote of its symbol from then on.
pub proof fn law_tick_is_the_quote(s: state::StateView, msg: Message, spot: proto::SpotEvent)
    requires
        msg.payload == Payload::Spot(spot),
    ensures
        bot_loop::after_message(s, msg).quotes.contains_key(spot.symbol_id),
        bot_loop::after_message(s, msg).quotes[spot.symbol_id] == bot_loop::spot_quote(spot),
{
}

/// A heartbeat is answered with a heartbeat, during start-up and after it,
/// and changes nothing. In particular it does not count as one of ours.
pub proof fn law_heartbeats_are_answered(s: state::StateView, phase: Phase, msg: Message)
    requires
        msg.payload_type == proto::HEARTBEAT_EVENT,
        msg.payload.fits(phase.form(msg.payload_type)),
    ensures
        bot_loop::next_phase(phase, msg) == Ok::<Phase, bot_loop::StartupError>(phase),
        bot_loop::message_reply(msg) == Some(proto::RequestView::Heartbeat),
        bot_loop::after_startup_message(s, phase, msg) == s,
        bot_loop::after_message(s, msg) == s,
        bot_loop::message_frames(s.symbols, msg) == Seq::<dto::FrameView>::empty(),
{
}

// ------------------------------------------------------------------ start-up

/// How many answers have come.
pub open spec fn answered(phase: Phase) -> int {
    match phase {
        Phase::Symbols => 0,
        Phase::Trader => 1,
        Phase::Assets { .. } => 2,
        Phase::Reconcile => 3,
        Phase::Ready => 4,
    }
}

/// A message that is not the awaited answer leaves the start-up where it is,
/// and does to the state what it would do after the start-up.
pub proof fn law_no_update_is_lost(s: state::StateView, phase: Phase, msg: Message)
    requires
        !phase.awaits(msg.payload_type),
    ensures
        bot_loop::next_phase(phase, msg) == Ok::<Phase, bot_loop::StartupError>(phase),
        bot_loop::after_startup_message(s, phase, msg) == bot_loop::after_message(s, msg),
{
}

/// The start-up moves on by one with the awaited answer and never otherwise,
/// and asks for the next answer when it does. It fails only where the trader
/// or the list of assets comes without a payload.
pub proof fn law_one_answer_at_a_time(phase: Phase, msg: Message, account_id: i64)
    requires
        msg.payload.fits(phase.form(msg.payload_type)),
    ensures
        match bot_loop::next_phase(phase, msg) {
            Ok(next) => {
                &&& answered(next) == answered(phase) + (if phase.awaits(msg.payload_type) {
                    1int
                } else {
                    0
                })
                &&& bot_loop::phase_request(next, account_id) is None <==> next == Phase::Ready
            },
            Err(_) => phase.awaits(msg.payload_type) && msg.payload == Payload::Missing && (
            phase == Phase::Trader || phase is Assets),
        },
{
}

/// Four answers, in the order in which they are asked for, complete the
/// start-up: the catalog has the named symbols, the account is the trader's
/// with the currency's name, and the positions and orders are the broker's.
pub proof fn law_startup_completes(
    s: state::StateView,
    symbols_msg: Message,
    trader_msg: Message,
    assets_msg: Message,
    reconcile_msg: Message,
    symbol_list: proto::SymbolsListRes,
    trader: Trader,
    assets: proto::AssetListRes,
    open: proto::ReconcileRes,
)
    requires
        symbols_msg.payload_type == proto::OA_SYMBOLS_LIST_RES,
        symbols_msg.payload == Payload::Symbols(symbol_list),
        trader_msg.payload_type == proto::OA_TRADER_RES,
        trader_msg.payload == Payload::Trader(trader),
        assets_msg.payload_type == proto::OA_ASSET_LIST_RES,
        assets_msg.payload == Payload::Assets(assets),
        reconcile_msg.payload_type == proto::OA_RECONCILE_RES,
        reconcile_msg.payload == Payload::Reconcile(open),
    ensures
        ({
            let p1 = bot_loop::next_phase(Phase::Symbols, symbols_msg)->Ok_0;
            let s1 = bot_loop::after_startup_message(s, Phase::Symbols, symbols_msg);
            let p2 = bot_loop::next_phase(p1, trader_msg)->Ok_0;
            let s2 = bot_loop::after_startup_message(s1, p1, trader_msg);
            let p3 = bot_loop::next_phase(p2, assets_msg)->Ok_0;
            let s3 = bot_loop::after_startup_message(s2, p2, assets_msg);
            let p4 = bot_loop::next_phase(p3, reconcile_msg)->Ok_0;
            let s4 = bot_loop::after_startup_message(s3, p3, reconcile_msg);
            &&& p4 == Phase::Ready
            &&& s4 == state::StateView {
                symbols: s.symbols.with_symbols(bot_loop::named_symbols(symbol_list.symbol@)),
                account: Some(
                    bot_loop::account_of(
                        s.account_id,
                        trader,
                        bot_loop::asset_name(assets.asset@, trader.deposit_asset_id),
                    ),
                ),
                positions: open.position@.map_values(
                    |p: ProtoPosition| state::position_of(p),
                ),
                orders: open.order@.map_values(|o: proto::ProtoOrder| state::order_of(o)),
                ..s
            }
        }),
{
}

/// Whether the account is known as soon as the start-up has come to the
/// positions.
pub open spec fn account_is_known(s: state::StateView, phase: Phase) -> bool {
    phase == Phase::Reconcile || phase == Phase::Ready ==> s.account is Some
}

/// From the answer with the list of assets on, the account is known: during
/// the rest of the start-up and whatever happens after it.
pub proof fn law_account_stays_known(
    s: state::StateView,
    phase: Phase,
    msg: Message,
    event: RunEvent,
)
    requires
        account_is_known(s, phase),
        msg.payload.fits(phase.form(msg.payload_type)),
    ensures
        bot_loop::next_phase(phase, msg) matches Ok(next) ==> account_is_known(
            bot_loop::after_startup_message(s, phase, msg),
            next,
        ),
        account_is_known(bot_loop::after_event(s, event), phase),
{
}

/// After the list of symbols came in, each named symbol is looked up by its
/// name and by its id, unless a later entry of the list uses either again.
pub proof fn law_fetched_symbols_resolve(
    catalog: symbols::CatalogView,
    list: Seq<LightSymbol>,
    k: int,
)
    requires
        0 <= k < list.len(),
        list[k].symbol_name is Some,
        forall|j: int|
            k < j < list.len() && (#[trigger] list[j]).symbol_name is Some ==> list[j].symbol_id
                != list[k].symbol_id && list[j].symbol_name->0@ != list[k].symbol_name->0@,
    ensures
        catalog.with_symbols(bot_loop::named_symbols(list)).name(list[k].symbol_id)
            == list[k].symbol_name->0@,
        catalog.with_symbols(bot_loop::named_symbols(list)).id(list[k].symbol_name->0@) == Some(
            list[k].symbol_id,
        ),
{
    let i = lemma_place_of_named(list, k);
    symbols::law_lookup_round_trip(catalog, bot_loop::named_symbols(list), i);
}

/// Where the named entry `k` of a list stands among the named entries.
proof fn lemma_place_of_named(list: Seq<LightSymbol>, k: int) -> (i: int)
    requires
        0 <= k < list.len(),
        list[k].symbol_name is Some,
        forall|j: int|
            k < j < list.len() && (#[trigger] list[j]).symbol_name is Some ==> list[j].symbol_id
                != list[k].symbol_id && list[j].symbol_name->0@ != list[k].symbol_name->0@,
    ensures
        0 <= i < bot_loop::named_symbols(list).len(),
        bot_loop::named_symbols(list)[i] == (list[k].symbol_id, list[k].symbol_name->0@),
        forall|j: int|
            i < j < bot_loop::named_symbols(list).len() ==> (#[trigger] bot_loop::named_symbols(
                list,
            )[j]).0 != list[k].symbol_id && bot_loop::named_symbols(list)[j].1
                != list[k].symbol_name->0@,
    decreases list.len(),
{
    let n = list.len() - 1;
    let init = list.drop_last();
    let before = bot_loop::named_symbols(init);
    if k == n {
        before.len() as int
    } else {
        assert forall|j: int|
            k < j < init.len() && (#[trigger] init[j]).symbol_name is Some implies init[j].symbol_id
            != init[k].symbol_id && init[j].symbol_name->0@ != init[k].symbol_name->0@ by {
            assert(init[j] == list[j]);
        }
        let i = lemma_place_of_named(init, k);
        assert(list.last() == list[n]);
        i
    }
}

// ------------------------------------------------------------------ commands

/// An order request of the API never fails for its side or its kind: it
/// becomes a new order with the numbers of both. The price of the request is
/// the limit price of a limit order and the stop price of a stop order.
pub proof fn law_api_orders_are_sendable(
    account_id: i64,
    symbol_id: i64,
    request: dto::PlaceOrderRequestView,
)
    ensures
        bot_loop::order_request(account_id, request.args(symbol_id)) == bot_loop::CommandView::Send(
            proto::RequestView::NewOrder(
                NewOrderReq {
                    account_id,
                    symbol_id,
                    order_type: match request.kind {
                        dto::OrderKind::Market => proto::ORDER_TYPE_MARKET,
                        dto::OrderKind::Limit => proto::ORDER_TYPE_LIMIT,
                        dto::OrderKind::Stop => proto::ORDER_TYPE_STOP,
                    },
                    trade_side: match request.side {
                        dto::Side::Buy => proto::TRADE_SIDE_BUY,
                        dto::Side::Sell => proto::TRADE_SIDE_SELL,
                    },
                    volume: request.volume,
                    limit_price: match request.kind {
                        dto::OrderKind::Limit => request.price,
                        dto::OrderKind::Market | dto::OrderKind::Stop => None,
                    },
                    stop_price: match request.kind {
                        dto::OrderKind::Stop => request.price,
                        dto::OrderKind::Market | dto::OrderKind::Limit => None,
                    },
                    stop_loss: request.stop_loss,
                    take_profit: request.take_profit,
                },
            ),
        ),
{
    reveal_strlit("BUY");
    reveal_strlit("SELL");
    reveal_strlit("MARKET");
    reveal_strlit("LIMIT");
    reveal_strlit("STOP");
    assert("BUY"@.len() == 3 && "SELL"@.len() == 4);
    assert("MARKET"@.len() == 6 && "LIMIT"@.len() == 5 && "STOP"@.len() == 4);
}

/// To close a position without naming a volume is to close it with the
/// volume that the broker last reported.
pub proof fn law_whole_position_is_closed(
    s: state::StateView,
    exec: ExecutionEvent,
    pos: ProtoPosition,
)
    requires
        records::unique(s.positions),
        exec.position == Some(pos),
        !bot_loop::is_closed(pos),
    ensures
        bot_loop::command_step(
            bot_loop::after_execution(s, exec),
            BotCommand::ClosePosition { position_id: pos.position_id, volume: None },
        ) == bot_loop::CommandView::Send(
            proto::RequestView::ClosePosition {
                account_id: s.account_id,
                position_id: pos.position_id,
                volume: pos.trade_data.volume,
            },
        ),
{
    let item = state::position_of(pos);
    let after = bot_loop::after_execution(s, exec).positions;
    records::lemma_unique_kept(s.positions, item, false);
    records::lemma_open_is_listed(s.positions, item);
    let i = choose|i: int| 0 <= i < after.len() && after[i] == item;
    assert(item.key() == pos.position_id);
    assert(after[i].key() == pos.position_id);
    assert(records::is_first(after, pos.position_id, i));
    records::lemma_first(after, pos.position_id, i);
}

/// A position that the broker reported as closed cannot be closed again
/// without naming a volume.
pub proof fn law_closed_position_is_not_found(
    s: state::StateView,
    exec: ExecutionEvent,
    pos: ProtoPosition,
)
    requires
        exec.position == Some(pos),
        bot_loop::is_closed(pos),
    ensures
        bot_loop::command_step(
            bot_loop::after_execution(s, exec),
            BotCommand::ClosePosition { position_id: pos.position_id, volume: None },
        ) == bot_loop::CommandView::Refuse("position not found"@),
{
    records::lemma_done_is_gone(s.positions, state::position_of(pos));
}

/// Every symbol that is asked for is in the catalog under a requested name,
/// and every requested name in the catalog is asked for.
pub proof fn law_subscribed_symbols_are_known(
    catalog: symbols::CatalogView,
    names: Seq<Seq<char>>,
    id: i64,
)
    ensures
        bot_loop::resolved(catalog, names).contains(id) <==> exists|k: int|
            0 <= k < names.len() && catalog.id(#[trigger] names[k]) == Some(id),
    decreases names.len(),
{
    let ids = bot_loop::resolved(catalog, names);
    if names.len() > 0 {
        let n = names.len() - 1;
        let init = names.drop_last();
        let before = bot_loop::resolved(catalog, init);
        law_subscribed_symbols_are_known(catalog, init, id);
        if before.contains(id) {
            let k = choose|k: int| 0 <= k < init.len() && catalog.id(#[trigger] init[k]) == Some(id);
            assert(names[k] == init[k]);
            let i = choose|i: int| 0 <= i < before.len() && before[i] == id;
            assert(ids[i] == id);
        } else if catalog.id(names[n]) == Some(id) {
            assert(ids[before.len() as int] == id);
        } else {
            assert forall|k: int| 0 <= k < names.len() implies catalog.id(#[trigger] names[k])
                != Some(id) by {
                if k < n {
                    assert(init[k] == names[k]);
                }
            }
        }
    }
}

} // verus!
