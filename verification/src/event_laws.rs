//! What the broker's messages and the events of the main loop do, told by
//! their fields: ticks, errors, heartbeats, the answers of the start-up, and
//! the end of the connection.

use vstd::prelude::*;

use crate::bot_laws;
use crate::bot_loop;
use crate::bot_loop::{Message, Payload, PayloadForm, Phase, RunEvent};
use crate::dto;
use crate::dto::{ConnectionState, OrderStatus};
use crate::execution_laws;
use crate::proto;
use crate::proto::{AssetListRes, OrderErrorEvent, ReconcileRes, SpotEvent, SymbolsListRes, Trader};
use crate::state;
use crate::state::BotCommand;
use crate::symbols;
use crate::text;

verus! {

// --------------------------------------------------------------------- ticks

/// A tick with both prices goes out as one frame with the name of its symbol,
/// its prices and its time.
pub proof fn law_tick_goes_out_as_it_came(
    s: state::StateView,
    msg: Message,
    spot: SpotEvent,
    bid: u64,
    ask: u64,
)
    requires
        msg.payload == Payload::Spot(spot),
        spot.bid == Some(bid),
        spot.ask == Some(ask),
    ensures
        bot_loop::message_frames(s.symbols, msg).len() == 1,
        match bot_loop::message_frames(s.symbols, msg)[0] {
            dto::FrameView::Tick { symbol, bid: told_bid, ask: told_ask, time } => {
                &&& symbol == s.symbols.name(spot.symbol_id)
                &&& told_bid == bid
                &&& told_ask == ask
                &&& spot.timestamp matches Some(t) ==> (t > 0 ==> time == t) && (t <= 0 ==> time
                    == 0)
                &&& spot.timestamp is None ==> time == 0
            },
            _ => false,
        },
{
}

/// A tick that lacks a price does not go out.
pub proof fn law_one_sided_tick_stays(s: state::StateView, msg: Message, spot: SpotEvent)
    requires
        msg.payload == Payload::Spot(spot),
        spot.bid is None || spot.ask is None,
    ensures
        bot_loop::message_frames(s.symbols, msg).len() == 0,
{
}

/// A tick, with both prices or without, is the quote of its symbol from then
/// on: prices and time are kept as they came. Everything else stays.
pub proof fn law_tick_is_kept_as_it_came(
    s: state::StateView,
    msg: Message,
    spot: SpotEvent,
    other: i64,
)
    requires
        msg.payload == Payload::Spot(spot),
        other != spot.symbol_id,
    ensures
        ({
            let after = bot_loop::after_message(s, msg);
            let quote = after.quotes[spot.symbol_id];
            &&& after.quotes.contains_key(spot.symbol_id)
            &&& quote.symbol_id == spot.symbol_id
            &&& quote.bid == spot.bid
            &&& quote.ask == spot.ask
            &&& quote.timestamp_ms == spot.timestamp
            &&& after.quotes.contains_key(other) == s.quotes.contains_key(other)
            &&& s.quotes.contains_key(other) ==> after.quotes[other] == s.quotes[other]
            &&& after.positions == s.positions
            &&& after.orders == s.orders
            &&& after.trades == s.trades
            &&& after.account == s.account
            &&& after.account_id == s.account_id
            &&& after.symbols == s.symbols
            &&& after.status == s.status
            &&& after.last_heartbeat_at == s.last_heartbeat_at
        }),
{
}

/// The quote that is served after a tick has the symbol, the prices and the
/// time of the frame that went out.
pub proof fn law_tick_and_quote_agree(
    s: state::StateView,
    msg: Message,
    spot: SpotEvent,
)
    requires
        msg.payload == Payload::Spot(spot),
        spot.bid is Some,
        spot.ask is Some,
    ensures
        ({
            let after = bot_loop::after_message(s, msg);
            let served = dto::quote_dto(after.quotes[spot.symbol_id], after.symbols);
            bot_loop::message_frames(s.symbols, msg) == seq![
                dto::FrameView::Tick {
                    symbol: served.symbol,
                    bid: served.bid,
                    ask: served.ask,
                    time: served.time,
                },
            ]
        }),
{
}

/// A quote is served under the name of its symbol, with the prices and the
/// time that are known, and zero for what is not or lies before the epoch.
pub proof fn law_quote_is_served_as_it_is_kept(q: state::Quote, catalog: symbols::CatalogView)
    ensures
        ({
            let served = dto::quote_dto(q, catalog);
            &&& served.symbol == catalog.name(q.symbol_id)
            &&& q.bid matches Some(bid) ==> served.bid == bid
            &&& q.bid is None ==> served.bid == 0
            &&& q.ask matches Some(ask) ==> served.ask == ask
            &&& q.ask is None ==> served.ask == 0
            &&& q.timestamp_ms matches Some(t) ==> (t > 0 ==> served.time == t) && (t <= 0
                ==> served.time == 0)
            &&& q.timestamp_ms is None ==> served.time == 0
        }),
{
}

// -------------------------------------------------------------------- errors

/// An order error that names an order goes out as one frame: the order is
/// rejected, and the detail is the code and the description with a colon and
/// a blank between. One that names none does not go out.
pub proof fn law_order_error_goes_out(s: state::StateView, msg: Message, err: OrderErrorEvent)
    requires
        msg.payload == Payload::OrderError(err),
    ensures
        ({
            let frames = bot_loop::message_frames(s.symbols, msg);
            match err.order_id {
                None => frames.len() == 0,
                Some(id) => frames.len() == 1 && match frames[0] {
                    dto::FrameView::Execution { order_id, status, detail } => {
                        &&& text::text_i64(order_id) == Some(id)
                        &&& status == OrderStatus::Rejected
                        &&& match (detail, err.description) {
                            (Some(d), Some(description)) => d == err.error_code@ + ": "@
                                + description@,
                            (Some(d), None) => d == err.error_code@ + ": "@,
                            (None, _) => false,
                        }
                    },
                    _ => false,
                },
            }
        }),
{
    if let Some(id) = err.order_id {
        text::law_decimal_round_trip(id);
    }
    assert(err.error_code@ + ": "@ + Seq::<char>::empty() =~= err.error_code@ + ": "@);
}

/// Of the broker's messages only ticks and executions change the state, and
/// only these and order errors go out to the clients.
pub proof fn law_other_messages_change_nothing(s: state::StateView, msg: Message)
    ensures
        msg.payload !is Spot && msg.payload !is Execution ==> bot_loop::after_message(s, msg) == s,
        msg.payload !is Spot && msg.payload !is Execution && msg.payload !is OrderError
            ==> bot_loop::message_frames(s.symbols, msg).len() == 0,
{
}

/// An execution message does what its execution does.
pub proof fn law_execution_message(
    s: state::StateView,
    msg: Message,
    exec: proto::ExecutionEvent,
)
    requires
        msg.payload == Payload::Execution(exec),
    ensures
        bot_loop::after_message(s, msg) == bot_loop::after_execution(s, exec),
        bot_loop::message_frames(s.symbols, msg) == bot_loop::execution_frames(s.symbols, exec),
{
}

/// A heartbeat of the broker is answered with a heartbeat, and no other
/// message is answered.
pub proof fn law_only_heartbeats_are_answered(msg: Message)
    ensures
        bot_loop::message_reply(msg) is Some <==> msg.payload_type == proto::HEARTBEAT_EVENT,
        bot_loop::message_reply(msg) matches Some(reply) ==> reply is Heartbeat,
{
}

/// Each kind of event is read as what it is, and every other message is not
/// read.
pub proof fn law_events_are_read_as_what_they_are(payload_type: u32)
    ensures
        bot_loop::event_form(payload_type) == PayloadForm::Spot <==> payload_type
            == proto::OA_SPOT_EVENT,
        bot_loop::event_form(payload_type) == PayloadForm::Execution <==> payload_type
            == proto::OA_EXECUTION_EVENT,
        bot_loop::event_form(payload_type) == PayloadForm::OrderError <==> payload_type
            == proto::OA_ORDER_ERROR_EVENT,
        bot_loop::event_form(payload_type) == PayloadForm::Error <==> payload_type
            == proto::OA_ERROR_RES,
        bot_loop::event_form(payload_type) == PayloadForm::Nothing <==> payload_type
            != proto::OA_SPOT_EVENT && payload_type != proto::OA_EXECUTION_EVENT && payload_type
            != proto::OA_ORDER_ERROR_EVENT && payload_type != proto::OA_ERROR_RES,
{
}

// ------------------------------------------------------------------- start-up

/// Each answer of the start-up is awaited in its phase, and read as what it
/// is. Every other message is read as it is after the start-up.
pub proof fn law_answers_are_read_as_what_they_are(phase: Phase, payload_type: u32)
    ensures
        phase.awaits(payload_type) <==> match phase {
            Phase::Symbols => payload_type == proto::OA_SYMBOLS_LIST_RES,
            Phase::Trader => payload_type == proto::OA_TRADER_RES,
            Phase::Assets { .. } => payload_type == proto::OA_ASSET_LIST_RES,
            Phase::Reconcile => payload_type == proto::OA_RECONCILE_RES,
            Phase::Ready => false,
        },
        phase.awaits(payload_type) ==> match phase.form(payload_type) {
            PayloadForm::Symbols => phase == Phase::Symbols,
            PayloadForm::Trader => phase == Phase::Trader,
            PayloadForm::Assets => phase is Assets,
            PayloadForm::Reconcile => phase == Phase::Reconcile,
            _ => false,
        },
        !phase.awaits(payload_type) ==> phase.form(payload_type) == bot_loop::event_form(
            payload_type,
        ),
{
}

/// The start-up asks for the symbols without the archived ones, then for the
/// trader, for the assets, and for the open positions and orders without the
/// protection orders, each for the account of the bot, and then for nothing
/// more. The clients are not told of the answers.
pub proof fn law_startup_asks_in_order(
    account_id: i64,
    phase: Phase,
    msg: Message,
    catalog: symbols::CatalogView,
)
    requires
        phase.awaits(msg.payload_type),
        bot_loop::next_phase(phase, msg) is Ok,
    ensures
        match bot_loop::phase_request(Phase::Symbols, account_id) {
            Some(proto::RequestView::SymbolsList { account_id: id, include_archived_symbols }) => {
                id == account_id && !include_archived_symbols
            },
            _ => false,
        },
        match bot_loop::startup_request(account_id, phase, msg) {
            Some(proto::RequestView::Trader { account_id: id }) => phase == Phase::Symbols && id
                == account_id,
            Some(proto::RequestView::AssetList { account_id: id }) => phase == Phase::Trader && id
                == account_id,
            Some(proto::RequestView::Reconcile { account_id: id, return_protection_orders }) => {
                phase is Assets && id == account_id && !return_protection_orders
            },
            None => phase == Phase::Reconcile,
            _ => false,
        },
        bot_loop::startup_frames(catalog, phase, msg).len() == 0,
{
}

/// The trader that came in is the one that the account is made of.
pub proof fn law_trader_is_kept(phase: Phase, msg: Message, trader: Trader)
    requires
        phase == Phase::Trader,
        msg.payload_type == proto::OA_TRADER_RES,
        msg.payload == Payload::Trader(trader),
    ensures
        bot_loop::next_phase(phase, msg) == Ok::<Phase, bot_loop::StartupError>(
            Phase::Assets { trader },
        ),
{
}

/// An answer without a payload changes nothing, and neither does the trader
/// before the assets have come. The list of symbols and the positions may come
/// without one; that the trader or the list of assets did is told apart.
pub proof fn law_answers_without_payload(s: state::StateView, phase: Phase, msg: Message)
    requires
        phase.awaits(msg.payload_type),
    ensures
        msg.payload == Payload::Missing ==> bot_loop::after_startup_message(s, phase, msg) == s,
        phase == Phase::Trader ==> bot_loop::after_startup_message(s, phase, msg) == s,
        msg.payload == Payload::Missing ==> match bot_loop::next_phase(phase, msg) {
            Ok(next) => phase == Phase::Symbols && next == Phase::Trader || phase
                == Phase::Reconcile && next == Phase::Ready,
            Err(bot_loop::StartupError::TraderWithoutPayload) => phase == Phase::Trader,
            Err(bot_loop::StartupError::AssetsWithoutPayload) => phase is Assets,
        },
{
}

/// A message that is not the awaited answer is answered and told of during
/// the start-up as it is after it.
pub proof fn law_startup_reacts_as_later(
    s: state::StateView,
    phase: Phase,
    msg: Message,
)
    requires
        !phase.awaits(msg.payload_type),
    ensures
        bot_loop::startup_request(s.account_id, phase, msg) == bot_loop::event_request(
            s,
            RunEvent::Received(msg),
        ),
        bot_loop::startup_frames(s.symbols, phase, msg) == bot_loop::event_frames(
            s,
            RunEvent::Received(msg),
        ),
        bot_loop::after_startup_message(s, phase, msg) == bot_loop::after_event(
            s,
            RunEvent::Received(msg),
        ),
{
}

proof fn lemma_asset_name(assets: Seq<proto::Asset>, asset_id: i64, k: int)
    ensures
        0 <= k < assets.len() && assets[k].asset_id == asset_id && (forall|j: int|
            0 <= j < k ==> (#[trigger] assets[j]).asset_id != asset_id) ==> bot_loop::asset_name(
            assets,
            asset_id,
        ) == Some(assets[k].name@),
        (forall|j: int| 0 <= j < assets.len() ==> (#[trigger] assets[j]).asset_id != asset_id)
            ==> bot_loop::asset_name(assets, asset_id) is None,
    decreases assets.len(),
{
    if assets.len() > 0 {
        let tail = assets.drop_first();
        lemma_asset_name(tail, asset_id, k - 1);
        if forall|j: int| 0 <= j < assets.len() ==> (#[trigger] assets[j]).asset_id != asset_id {
            assert forall|j: int| 0 <= j < tail.len() implies (#[trigger] tail[j]).asset_id
                != asset_id by {
                assert(tail[j] == assets[j + 1]);
            }
        }
        if 0 < k < assets.len() && assets[k].asset_id == asset_id && (forall|j: int|
            0 <= j < k ==> (#[trigger] assets[j]).asset_id != asset_id) {
            assert(assets[0].asset_id != asset_id);
            assert(tail[k - 1] == assets[k]);
            assert forall|j: int| 0 <= j < k - 1 implies (#[trigger] tail[j]).asset_id
                != asset_id by {
                assert(tail[j] == assets[j + 1]);
            }
        }
    }
}

/// With the list of assets the account is known: its id is that of the bot,
/// its balance the trader's, with the trader's digits or two, and equity,
/// margin and free margin are the balance. The currency is the name of the
/// first asset with the trader's asset id, or the US dollar where there is
/// none. Nothing else changes.
pub proof fn law_account_is_the_traders(
    s: state::StateView,
    trader: Trader,
    msg: Message,
    assets: AssetListRes,
    k: int,
)
    requires
        msg.payload_type == proto::OA_ASSET_LIST_RES,
        msg.payload == Payload::Assets(assets),
    ensures
        ({
            let after = bot_loop::after_startup_message(s, Phase::Assets { trader }, msg);
            let list = assets.asset@;
            &&& match after.account {
                Some(account) => {
                    &&& text::text_i64(account.id) == Some(s.account_id)
                    &&& account.balance.amount == trader.balance
                    &&& trader.money_digits matches Some(d) ==> account.balance.digits
                        == d as i16 as i32
                    &&& trader.money_digits matches Some(d) ==> d <= i16::MAX
                        ==> account.balance.digits == d
                    &&& trader.money_digits is None ==> account.balance.digits == 2
                    &&& account.equity == account.balance
                    &&& account.margin == account.balance
                    &&& account.free_margin == account.balance
                    &&& 0 <= k < list.len() && list[k].asset_id == trader.deposit_asset_id && (
                    forall|j: int|
                        0 <= j < k ==> (#[trigger] list[j]).asset_id != trader.deposit_asset_id)
                        ==> account.currency == list[k].name@
                    &&& (forall|j: int|
                        0 <= j < list.len() ==> (#[trigger] list[j]).asset_id
                            != trader.deposit_asset_id) ==> account.currency == "USD"@
                },
                None => false,
            }
            &&& after == (state::StateView { account: after.account, ..s })
        }),
{
    lemma_asset_name(assets.asset@, trader.deposit_asset_id, k);
    text::law_decimal_round_trip(s.account_id);
}

/// With the open positions and orders the lists are the broker's: each
/// reported one in its place, and no other. Nothing else changes.
pub proof fn law_lists_are_the_brokers(
    s: state::StateView,
    msg: Message,
    open: ReconcileRes,
    i: int,
)
    requires
        msg.payload_type == proto::OA_RECONCILE_RES,
        msg.payload == Payload::Reconcile(open),
    ensures
        ({
            let after = bot_loop::after_startup_message(s, Phase::Reconcile, msg);
            &&& after.positions.len() == open.position@.len()
            &&& after.orders.len() == open.order@.len()
            &&& 0 <= i < open.position@.len() ==> execution_laws::holds_position(
                after.positions[i],
                open.position@[i],
            )
            &&& 0 <= i < open.order@.len() ==> execution_laws::holds_order(
                after.orders[i],
                open.order@[i],
            )
            &&& after == (state::StateView {
                positions: after.positions,
                orders: after.orders,
                ..s
            })
        }),
{
    if 0 <= i < open.position@.len() {
        execution_laws::law_reported_position_is_kept(open.position@[i]);
    }
    if 0 <= i < open.order@.len() {
        execution_laws::law_reported_order_is_kept(open.order@[i]);
    }
}

/// With the list of symbols the catalog knows each named symbol by its name
/// and by its id, unless a later entry of the list uses either again. Nothing
/// but the catalog changes.
pub proof fn law_symbols_are_the_brokers(
    s: state::StateView,
    msg: Message,
    res: SymbolsListRes,
    k: int,
)
    requires
        msg.payload_type == proto::OA_SYMBOLS_LIST_RES,
        msg.payload == Payload::Symbols(res),
        0 <= k < res.symbol@.len(),
        res.symbol@[k].symbol_name is Some,
        forall|j: int|
            k < j < res.symbol@.len() && (#[trigger] res.symbol@[j]).symbol_name is Some
                ==> res.symbol@[j].symbol_id != res.symbol@[k].symbol_id
                && res.symbol@[j].symbol_name->0@ != res.symbol@[k].symbol_name->0@,
    ensures
        ({
            let after = bot_loop::after_startup_message(s, Phase::Symbols, msg);
            &&& after.symbols.name(res.symbol@[k].symbol_id) == res.symbol@[k].symbol_name->0@
            &&& after.symbols.id(res.symbol@[k].symbol_name->0@) == Some(res.symbol@[k].symbol_id)
            &&& after.symbols.metas == s.symbols.metas
            &&& after == (state::StateView { symbols: after.symbols, ..s })
        }),
{
    bot_laws::law_fetched_symbols_resolve(s.symbols, res.symbol@, k);
    symbols::law_names_are_all(s.symbols, bot_loop::named_symbols(res.symbol@));
}

/// A symbol that the list does not name stays in the catalog as it was.
pub proof fn law_unnamed_symbols_stay(
    catalog: symbols::CatalogView,
    list: Seq<proto::LightSymbol>,
    id: i64,
    name: Seq<char>,
)
    ensures
        (forall|j: int|
            0 <= j < list.len() && (#[trigger] list[j]).symbol_name is Some ==> list[j].symbol_id
                != id) ==> catalog.with_symbols(bot_loop::named_symbols(list)).name(id)
            == catalog.name(id),
        (forall|j: int|
            0 <= j < list.len() && (#[trigger] list[j]).symbol_name is Some
                ==> list[j].symbol_name->0@ != name) ==> catalog.with_symbols(
            bot_loop::named_symbols(list),
        ).id(name) == catalog.id(name),
    decreases list.len(),
{
    if list.len() > 0 {
        let n = list.len() - 1;
        let init = list.drop_last();
        law_unnamed_symbols_stay(catalog, init, id, name);
        let entries = bot_loop::named_symbols(list);
        assert(list[n] == list.last());
        if list.last().symbol_name is Some {
            assert(entries.drop_last() =~= bot_loop::named_symbols(init));
        }
        if forall|j: int|
            0 <= j < list.len() && (#[trigger] list[j]).symbol_name is Some ==> list[j].symbol_id
                != id {
            assert forall|j: int|
                0 <= j < init.len() && (#[trigger] init[j]).symbol_name is Some implies init[
            j].symbol_id != id by {
                assert(init[j] == list[j]);
            }
        }
        if forall|j: int|
            0 <= j < list.len() && (#[trigger] list[j]).symbol_name is Some
                ==> list[j].symbol_name->0@ != name {
            assert forall|j: int|
                0 <= j < init.len() && (#[trigger] init[j]).symbol_name is Some implies init[
            j].symbol_name->0@ != name by {
                assert(init[j] == list[j]);
            }
        }
    }
}

/// The named symbols of a list are those of its parts, one after the other: an
/// entry with a name gives its id and its name, and one without gives nothing.
pub proof fn law_named_symbols_in_order(
    a: Seq<proto::LightSymbol>,
    b: Seq<proto::LightSymbol>,
    entry: proto::LightSymbol,
)
    ensures
        bot_loop::named_symbols(a + b) == bot_loop::named_symbols(a) + bot_loop::named_symbols(b),
        entry.symbol_name matches Some(name) ==> bot_loop::named_symbols(seq![entry]) == seq![
            (entry.symbol_id, name@),
        ],
        entry.symbol_name is None ==> bot_loop::named_symbols(seq![entry]).len() == 0,
    decreases b.len(),
{
    reveal_with_fuel(bot_loop::named_symbols, 2);
    assert(seq![entry].drop_last() =~= Seq::<proto::LightSymbol>::empty());
    assert(seq![entry].last() == entry);
    if b.len() == 0 {
        assert(a + b =~= a);
        assert(bot_loop::named_symbols(a) + bot_loop::named_symbols(b) =~= bot_loop::named_symbols(
            a,
        ));
    } else {
        law_named_symbols_in_order(a, b.drop_last(), entry);
        assert((a + b).drop_last() =~= a + b.drop_last());
        assert((a + b).last() == b.last());
        assert(bot_loop::named_symbols(a + b) =~= bot_loop::named_symbols(a)
            + bot_loop::named_symbols(b));
    }
}

// -------------------------------------------------------------- subscription

/// The symbols of a list of names are those of its parts, one after the
/// other: a known name gives its id, and an unknown one nothing.
pub proof fn law_subscription_in_order(
    catalog: symbols::CatalogView,
    a: Seq<Seq<char>>,
    b: Seq<Seq<char>>,
    name: Seq<char>,
)
    ensures
        bot_loop::resolved(catalog, a + b) == bot_loop::resolved(catalog, a)
            + bot_loop::resolved(catalog, b),
        bot_loop::unresolved(catalog, a + b) == bot_loop::unresolved(catalog, a)
            + bot_loop::unresolved(catalog, b),
        catalog.ids.contains_key(name) ==> bot_loop::resolved(catalog, seq![name])
            == seq![catalog.ids[name]] && bot_loop::unresolved(catalog, seq![name]).len() == 0,
        !catalog.ids.contains_key(name) ==> bot_loop::resolved(catalog, seq![name]).len() == 0
            && bot_loop::unresolved(catalog, seq![name]) == seq![name],
    decreases b.len(),
{
    reveal_with_fuel(bot_loop::resolved, 2);
    reveal_with_fuel(bot_loop::unresolved, 2);
    assert(seq![name].drop_last() =~= Seq::<Seq<char>>::empty());
    assert(seq![name].last() == name);
    if b.len() == 0 {
        assert(a + b =~= a);
        assert(bot_loop::resolved(catalog, a) + bot_loop::resolved(catalog, b)
            =~= bot_loop::resolved(catalog, a));
        assert(bot_loop::unresolved(catalog, a) + bot_loop::unresolved(catalog, b)
            =~= bot_loop::unresolved(catalog, a));
    } else {
        law_subscription_in_order(catalog, a, b.drop_last(), name);
        assert((a + b).drop_last() =~= a + b.drop_last());
        assert((a + b).last() == b.last());
        assert(bot_loop::resolved(catalog, a + b) =~= bot_loop::resolved(catalog, a)
            + bot_loop::resolved(catalog, b));
        assert(bot_loop::unresolved(catalog, a + b) =~= bot_loop::unresolved(catalog, a)
            + bot_loop::unresolved(catalog, b));
    }
}

/// The ticks of all known names are asked for in one request, for the account
/// of the bot and with timestamps. Where no name is known, nothing is asked
/// for.
pub proof fn law_known_symbols_are_asked_for(s: state::StateView, names: Seq<Seq<char>>)
    ensures
        match bot_loop::spots_request(s, names) {
            Some(
                proto::RequestView::SubscribeSpots {
                    account_id,
                    symbol_id,
                    subscribe_to_spot_timestamp,
                },
            ) => {
                &&& account_id == s.account_id
                &&& symbol_id == bot_loop::resolved(s.symbols, names)
                &&& subscribe_to_spot_timestamp
                &&& exists|k: int|
                    0 <= k < names.len() && s.symbols.ids.contains_key(#[trigger] names[k])
            },
            Some(_) => false,
            None => forall|k: int|
                0 <= k < names.len() ==> !s.symbols.ids.contains_key(#[trigger] names[k]),
        },
{
    let ids = bot_loop::resolved(s.symbols, names);
    if ids.len() == 0 {
        assert forall|k: int| 0 <= k < names.len() implies !s.symbols.ids.contains_key(
            #[trigger] names[k],
        ) by {
            if s.symbols.ids.contains_key(names[k]) {
                let id = s.symbols.ids[names[k]];
                bot_laws::law_subscribed_symbols_are_known(s.symbols, names, id);
                assert(s.symbols.id(names[k]) == Some(id));
                assert(ids.contains(id));
            }
        }
    } else {
        let id = ids[0];
        bot_laws::law_subscribed_symbols_are_known(s.symbols, names, id);
        assert(ids.contains(id));
        let k = choose|k: int| 0 <= k < names.len() && s.symbols.id(#[trigger] names[k]) == Some(id);
        assert(s.symbols.ids.contains_key(names[k]));
    }
}

// ------------------------------------------------------------------ main loop

/// When the loop begins, the clients are told the state of the connection.
/// Nothing is sent, and nothing changes.
pub proof fn law_beginning(s: state::StateView)
    ensures
        bot_loop::event_frames(s, RunEvent::Started) == seq![
            dto::FrameView::Status {
                connection: dto::status_dto(s, 0).connection,
            },
        ],
        bot_loop::event_request(s, RunEvent::Started) is None,
        bot_loop::after_event(s, RunEvent::Started) == s,
        !bot_loop::ends_the_loop(RunEvent::Started),
{
}

/// When the connection fails, the bot is disconnected, for the API as for the
/// clients. Nothing is sent, and nothing else changes.
pub proof fn law_end_of_the_connection(s: state::StateView, uptime_seconds: u64)
    ensures
        ({
            let after = bot_loop::after_event(s, RunEvent::ReadFailed);
            &&& after == (state::StateView { status: 0, ..s })
            &&& dto::status_dto(after, uptime_seconds).connection == ConnectionState::Disconnected
            &&& bot_loop::event_frames(s, RunEvent::ReadFailed) == seq![
                dto::FrameView::Status { connection: ConnectionState::Disconnected },
            ]
            &&& bot_loop::event_request(s, RunEvent::ReadFailed) is None
            &&& bot_loop::ends_the_loop(RunEvent::ReadFailed)
        }),
{
}

/// When it is time for one, which is every ten seconds, a heartbeat goes to
/// the broker. When it went out, its time is kept, told to the clients, and
/// served as the last heartbeat.
pub proof fn law_heartbeat_is_sent_and_told(s: state::StateView, now_ms: i64, uptime_seconds: u64)
    ensures
        bot_loop::HEARTBEAT_INTERVAL_MS == 10 * 1000,
        bot_loop::event_request(s, RunEvent::Tick) == Some(proto::RequestView::Heartbeat),
        bot_loop::after_event(s, RunEvent::Tick) == s,
        bot_loop::event_frames(s, RunEvent::Tick).len() == 0,
        ({
            let event = RunEvent::HeartbeatSent { now_ms };
            let after = bot_loop::after_event(s, event);
            &&& after == (state::StateView { last_heartbeat_at: now_ms, ..s })
            &&& now_ms > 0 ==> dto::status_dto(after, uptime_seconds).last_heartbeat_at == Some(
                dto::rfc3339_text(now_ms),
            )
            &&& bot_loop::event_frames(s, event) == seq![dto::FrameView::Heartbeat { at: now_ms }]
            &&& bot_loop::event_request(s, event) is None
            &&& !bot_loop::ends_the_loop(event)
            &&& !bot_loop::ends_the_loop(RunEvent::Tick)
        }),
{
}

/// A message goes through the main loop as it is dealt with, and is never
/// refused.
pub proof fn law_message_goes_through(s: state::StateView, msg: Message)
    ensures
        bot_loop::after_event(s, RunEvent::Received(msg)) == bot_loop::after_message(s, msg),
        bot_loop::event_frames(s, RunEvent::Received(msg)) == bot_loop::message_frames(
            s.symbols,
            msg,
        ),
        bot_loop::event_request(s, RunEvent::Received(msg)) == bot_loop::message_reply(msg),
        bot_loop::event_refusal(s, RunEvent::Received(msg)) is None,
        !bot_loop::ends_the_loop(RunEvent::Received(msg)),
{
}

/// A command is sent to the broker or refused, and never both. It changes
/// nothing, and the clients are not told.
pub proof fn law_command_is_sent_or_refused(s: state::StateView, cmd: BotCommand)
    ensures
        bot_loop::event_request(s, RunEvent::Command(cmd)) is Some
            <==> bot_loop::event_refusal(s, RunEvent::Command(cmd)) is None,
        bot_loop::event_request(s, RunEvent::Command(cmd)) matches Some(request)
            ==> bot_loop::command_step(s, cmd) == bot_loop::CommandView::Send(request),
        bot_loop::event_refusal(s, RunEvent::Command(cmd)) matches Some(message)
            ==> bot_loop::command_step(s, cmd) == bot_loop::CommandView::Refuse(message),
        bot_loop::after_event(s, RunEvent::Command(cmd)) == s,
        !bot_loop::ends_the_loop(RunEvent::Command(cmd)),
        bot_loop::event_frames(s, RunEvent::Command(cmd)).len() == 0,
{
}

} // verus!
