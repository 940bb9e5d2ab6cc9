//! What the commands of the API do, told by the fields of the request: what
//! goes to the broker, and what is answered.

use vstd::prelude::*;

use crate::bot_loop;
use crate::dto;
use crate::dto::{OrderKind, Side};
use crate::execution_laws;
use crate::proto;
use crate::proto::{NewOrderReq, ProtoOrder};
use crate::records;
use crate::records::Record;
use crate::routes;
use crate::routes::CommandEvent;
use crate::state;
use crate::state::BotCommand;
use crate::symbols;
use crate::text;

verus! {

// ------------------------------------------------------------------- placing

/// Whether the order that goes to the broker is the requested one: the price
/// of the request stands in the field that the kind of order has for it, and
/// in no other.
pub open spec fn asks_for(
    order: NewOrderReq,
    account_id: i64,
    symbol_id: i64,
    request: dto::PlaceOrderRequestView,
) -> bool {
    &&& order.account_id == account_id
    &&& order.symbol_id == symbol_id
    &&& order.volume == request.volume
    &&& request.side == Side::Buy ==> order.trade_side == proto::TRADE_SIDE_BUY
    &&& request.side == Side::Sell ==> order.trade_side == proto::TRADE_SIDE_SELL
    &&& request.kind == OrderKind::Market ==> order.order_type == proto::ORDER_TYPE_MARKET
        && order.limit_price is None && order.stop_price is None
    &&& request.kind == OrderKind::Limit ==> order.order_type == proto::ORDER_TYPE_LIMIT
        && order.limit_price == request.price && order.stop_price is None
    &&& request.kind == OrderKind::Stop ==> order.order_type == proto::ORDER_TYPE_STOP
        && order.stop_price == request.price && order.limit_price is None
    &&& order.stop_loss == request.stop_loss
    &&& order.take_profit == request.take_profit
}

/// A requested order goes to the broker as requested: whatever its stop loss
/// and take profit, a limit order goes out with its price as the limit price, a
/// stop order with its price as the stop price, and a market order without
/// one. What is waited for is one order more than there are.
pub proof fn law_requested_order_goes_to_the_broker(
    s: state::StateView,
    request: dto::PlaceOrderRequestView,
    symbol_id: i64,
)
    requires
        s.symbols.id(request.symbol) == Some(symbol_id),
    ensures
        match routes::orders::order_begun(s, request) {
            Ok((args, count)) => count == s.orders.len() && match bot_loop::order_request(
                s.account_id,
                args,
            ) {
                bot_loop::CommandView::Send(proto::RequestView::NewOrder(order)) => asks_for(
                    order,
                    s.account_id,
                    symbol_id,
                    request,
                ),
                _ => false,
            },
            Err(_) => false,
        },
{
    reveal_strlit("BUY");
    reveal_strlit("SELL");
    reveal_strlit("MARKET");
    reveal_strlit("LIMIT");
    reveal_strlit("STOP");
    assert("BUY"@.len() == 3 && "SELL"@.len() == 4);
    assert("MARKET"@.len() == 6 && "LIMIT"@.len() == 5 && "STOP"@.len() == 4);
}

/// The bot loop sends what it was given: the command to place an order makes
/// the request of its parameters, for the account of the bot.
pub proof fn law_order_command_is_sent(s: state::StateView, args: state::PlaceOrderArgs)
    ensures
        bot_loop::command_step(s, BotCommand::PlaceOrder { args }) == bot_loop::order_request(
            s.account_id,
            args@,
        ),
{
}

/// An order goes to the broker exactly where its side and its type are known,
/// with each parameter as given; else the answer names what is not known.
pub proof fn law_order_parameters_are_kept(account_id: i64, args: state::PlaceOrderArgsView)
    ensures
        ({
            let known_side = args.side == "BUY"@ || args.side == "SELL"@;
            let known_type = args.order_type == "MARKET"@ || args.order_type == "LIMIT"@
                || args.order_type == "STOP"@ || args.order_type == "STOP_LIMIT"@;
            match bot_loop::order_request(account_id, args) {
                bot_loop::CommandView::Send(proto::RequestView::NewOrder(order)) => {
                    &&& known_side && known_type
                    &&& order.account_id == account_id
                    &&& order.symbol_id == args.symbol_id
                    &&& order.volume == args.volume
                    &&& order.limit_price == args.limit_price
                    &&& order.stop_price == args.stop_price
                    &&& order.stop_loss == args.stop_loss
                    &&& order.take_profit == args.take_profit
                    &&& args.side == "BUY"@ <==> order.trade_side == proto::TRADE_SIDE_BUY
                    &&& args.side == "SELL"@ <==> order.trade_side == proto::TRADE_SIDE_SELL
                    &&& args.order_type == "MARKET"@ <==> order.order_type
                        == proto::ORDER_TYPE_MARKET
                    &&& args.order_type == "LIMIT"@ <==> order.order_type
                        == proto::ORDER_TYPE_LIMIT
                    &&& args.order_type == "STOP"@ <==> order.order_type == proto::ORDER_TYPE_STOP
                    &&& args.order_type == "STOP_LIMIT"@ <==> order.order_type
                        == proto::ORDER_TYPE_STOP_LIMIT
                },
                bot_loop::CommandView::Refuse(message) => {
                    &&& !known_side || !known_type
                    &&& !known_side ==> message == "invalid side: "@ + args.side
                    &&& known_side ==> message == "invalid order_type: "@ + args.order_type
                },
                _ => false,
            }
        }),
{
    reveal_strlit("BUY");
    reveal_strlit("SELL");
    reveal_strlit("MARKET");
    reveal_strlit("LIMIT");
    reveal_strlit("STOP");
    reveal_strlit("STOP_LIMIT");
    assert("BUY"@.len() == 3 && "SELL"@.len() == 4);
    assert("MARKET"@.len() == 6 && "LIMIT"@.len() == 5 && "STOP"@.len() == 4 && "STOP_LIMIT"@.len()
        == 10);
}

/// An order for a symbol that is not in the catalog is refused, and nothing
/// goes to the broker.
pub proof fn law_unknown_symbol_is_refused(
    s: state::StateView,
    request: dto::PlaceOrderRequestView,
)
    ensures
        match routes::orders::order_begun(s, request) {
            Ok(_) => s.symbols.ids.contains_key(request.symbol),
            Err(e) => {
                &&& !s.symbols.ids.contains_key(request.symbol)
                &&& e.status == 400
                &&& e.code == "bad_request"@
                &&& e.message == "unknown symbol: "@ + request.symbol
                &&& e.details is None
            },
        },
{
}

/// Whether the broker's report is of the order that was sent to it.
pub open spec fn reports(order: ProtoOrder, sent: NewOrderReq) -> bool {
    &&& order.trade_data.symbol_id == sent.symbol_id
    &&& order.trade_data.volume == sent.volume
    &&& order.trade_data.trade_side == sent.trade_side
    &&& order.order_type == sent.order_type
    &&& order.limit_price == sent.limit_price
    &&& order.stop_price == sent.stop_price
    &&& order.stop_loss == sent.stop_loss
    &&& order.take_profit == sent.take_profit
}

/// An order that the broker reports as it was sent is served as it was
/// requested: side, kind, volume, price, stop loss and take profit.
pub proof fn law_order_comes_back_as_requested(
    account_id: i64,
    symbol_id: i64,
    request: dto::PlaceOrderRequestView,
    sent: NewOrderReq,
    order: ProtoOrder,
    catalog: symbols::CatalogView,
)
    requires
        bot_loop::order_request(account_id, request.args(symbol_id)) == bot_loop::CommandView::Send(
            proto::RequestView::NewOrder(sent),
        ),
        reports(order, sent),
    ensures
        ({
            let served = dto::order_dto(state::order_of(order), catalog);
            &&& served.symbol == catalog.name(symbol_id)
            &&& served.side == request.side
            &&& served.kind == request.kind
            &&& served.volume == request.volume
            &&& request.kind != OrderKind::Market ==> served.price == request.price
            &&& request.kind == OrderKind::Market ==> served.price is None
            &&& served.stop_loss == request.stop_loss
            &&& served.take_profit == request.take_profit
        }),
{
    reveal_strlit("BUY");
    reveal_strlit("SELL");
    reveal_strlit("MARKET");
    reveal_strlit("LIMIT");
    reveal_strlit("STOP");
    assert("BUY"@.len() == 3 && "SELL"@.len() == 4);
    assert("MARKET"@.len() == 6 && "LIMIT"@.len() == 5 && "STOP"@.len() == 4);
    execution_laws::law_side_of_a_number(order.trade_data.trade_side);
    execution_laws::law_kind_of_a_number(order.order_type);
}

/// An order that was sent counts as accepted, so that its answer is waited
/// for; one that could not be sent fails with the reason.
pub proof fn law_sent_order_is_waited_for(
    s: state::StateView,
    baseline_count: usize,
    result: state::PlaceOrderResult,
    reason: Seq<char>,
)
    requires
        bot_loop::sent_answer(Ok(())) == Ok::<(bool, Seq<char>), Seq<char>>(
            (result.accepted, result.message@),
        ),
    ensures
        routes::orders::place_step(
            s,
            baseline_count,
            routes::orders::PlaceEvent::Answered { result },
        ) is Poll,
        bot_loop::sent_answer(Err(reason)) == Err::<(bool, Seq<char>), Seq<char>>(reason),
{
}

/// While no order has shown and the time is not over, an accepted order is
/// waited for. Every other outcome is an error: the bot's or the broker's
/// refusal is the client's error and says why, and a bot that cannot be
/// reached is the server's.
pub proof fn law_outcomes_of_placing(
    s: state::StateView,
    baseline_count: usize,
    event: routes::orders::PlaceEvent,
)
    ensures
        match routes::orders::place_step(s, baseline_count, event) {
            routes::orders::PlaceStepView::Poll => match event {
                routes::orders::PlaceEvent::Answered { result } => result.accepted,
                routes::orders::PlaceEvent::Polled { waited_ms } => waited_ms < 1200
                    && s.orders.len() <= baseline_count,
                _ => false,
            },
            routes::orders::PlaceStepView::Placed { order } => {
                &&& event is Polled
                &&& s.orders.len() > baseline_count
                &&& order == routes::orders::served_orders(s).last()
            },
            routes::orders::PlaceStepView::Failed { error } => {
                &&& error.details is None
                &&& match event {
                    routes::orders::PlaceEvent::SendFailed { message } => error.status == 500
                        && error.code == "bot_channel_closed"@ && error.message == message@,
                    routes::orders::PlaceEvent::Answered { result } => !result.accepted
                        && error.status == 400 && error.code == "broker_rejected"@
                        && error.message == result.message@,
                    routes::orders::PlaceEvent::Refused { message } => error.status == 400
                        && error.code == "bot_error"@ && error.message == message@,
                    routes::orders::PlaceEvent::Dropped => error.status == 500 && error.code
                        == "bot_channel_dropped"@ && error.message
                        == "bot loop dropped response"@,
                    routes::orders::PlaceEvent::Polled { waited_ms } => waited_ms >= 1200
                        && s.orders.len() <= baseline_count && error.status == 202 && error.code
                        == "pending_execution"@ && error.message
                        == "order accepted by broker; waiting on execution event (will arrive via WS)"@,
                }
            },
        },
{
}

// ---------------------------------------------------------------- cancelling

/// A request to cancel names an order by the id under which it is served, and
/// goes to the broker for that order and no other, whether or not the bot
/// lists it.
pub proof fn law_served_order_is_cancelled(s: state::StateView, order: state::Order)
    ensures
        ({
            let named = routes::orders::order_to_cancel(dto::order_dto(order, s.symbols).id);
            &&& named == Ok::<i64, routes::ApiErrorView>(order.order_id)
            &&& bot_loop::command_step(
                s,
                BotCommand::CancelOrder { order_id: named->Ok_0 },
            ) == bot_loop::CommandView::Send(
                proto::RequestView::CancelOrder {
                    account_id: s.account_id,
                    order_id: order.order_id,
                },
            )
        }),
{
    text::law_decimal_round_trip(order.order_id);
}

/// The command to cancel an order goes to the broker for that order, in every
/// state.
pub proof fn law_cancellation_is_sent(s: state::StateView, order_id: i64)
    ensures
        bot_loop::command_step(s, BotCommand::CancelOrder { order_id })
            == bot_loop::CommandView::Send(
            proto::RequestView::CancelOrder { account_id: s.account_id, order_id },
        ),
{
}

/// A text that is no number names no order and no position: the answer is the
/// client's error.
pub proof fn law_ids_are_numbers(id: Seq<char>, body: Option<routes::positions::CloseBody>)
    requires
        text::text_i64(id) is None,
    ensures
        match routes::orders::order_to_cancel(id) {
            Ok(_) => false,
            Err(e) => e.status == 400 && e.code == "invalid_order_id"@ && e.message
                == "invalid order id"@ && e.details is None,
        },
        match routes::positions::position_to_close(id, body) {
            Ok(_) => false,
            Err(e) => e.status == 400 && e.code == "invalid_position_id"@ && e.message
                == "invalid position id"@ && e.details is None,
        },
{
}

/// A cancellation that the bot loop did is answered with the order as it is
/// served, the first with the id, or with an error that names the id where
/// there is none. Every other outcome is an error that says why.
pub proof fn law_answers_to_a_cancellation(
    s: state::StateView,
    order_id: i64,
    event: CommandEvent,
    k: int,
)
    ensures
        match routes::orders::cancel_answer(s, order_id, event) {
            Ok(order) => {
                &&& event is Done
                &&& text::text_i64(order.id) == Some(order_id)
                &&& routes::orders::served_orders(s).contains(order)
                &&& records::is_first(s.orders, order_id, k) ==> order
                    == routes::orders::served_orders(s)[k]
            },
            Err(error) => {
                &&& error.details is None
                &&& match event {
                    CommandEvent::Done => !records::listed(s.orders, order_id) && error.status == 404
                        && error.code == "order_not_found"@ && error.message == "order "@
                        + text::int_text(order_id as int) + " not found after cancel request"@,
                    CommandEvent::SendFailed { message } => error.status == 500 && error.code
                        == "bot_channel_closed"@ && error.message == message@,
                    CommandEvent::Refused { message } => error.status == 400 && error.code
                        == "cancel_rejected"@ && error.message == message@,
                    CommandEvent::Dropped => error.status == 500 && error.code
                        == "bot_channel_dropped"@ && error.message == "bot loop dropped response"@,
                }
            },
        },
{
    if event is Done && records::listed(s.orders, order_id) {
        let first = records::lemma_first_place(s.orders, order_id);
        text::law_decimal_round_trip(order_id);
        assert(s.orders[first].key() == order_id);
        assert(routes::orders::served_orders(s)[first] == dto::order_dto(
            s.orders[first],
            s.symbols,
        ));
        if records::is_first(s.orders, order_id, k) {
            records::lemma_first(s.orders, order_id, k);
        }
    }
}

// ------------------------------------------------------------------- closing

/// A position that is to be closed with a volume is closed with that volume:
/// whether or not the bot lists the position, and whatever volume it lists.
pub proof fn law_named_volume_is_closed(s: state::StateView, position_id: i64, volume: i64)
    ensures
        bot_loop::command_step(
            s,
            BotCommand::ClosePosition { position_id, volume: Some(volume) },
        ) == bot_loop::CommandView::Send(
            proto::RequestView::ClosePosition { account_id: s.account_id, position_id, volume },
        ),
{
}

/// A position that is to be closed without naming a volume is closed with the
/// volume of the first listed position with the id. Where none is listed, the
/// command is refused.
pub proof fn law_whole_volume_is_closed(s: state::StateView, position_id: i64, k: int)
    ensures
        records::is_first(s.positions, position_id, k) ==> bot_loop::command_step(
            s,
            BotCommand::ClosePosition { position_id, volume: None },
        ) == bot_loop::CommandView::Send(
            proto::RequestView::ClosePosition {
                account_id: s.account_id,
                position_id,
                volume: s.positions[k].volume,
            },
        ),
        (forall|i: int|
            0 <= i < s.positions.len() ==> (#[trigger] s.positions[i]).position_id != position_id)
            ==> bot_loop::command_step(
            s,
            BotCommand::ClosePosition { position_id, volume: None },
        ) == bot_loop::CommandView::Refuse("position not found"@),
{
    if records::is_first(s.positions, position_id, k) {
        records::lemma_first(s.positions, position_id, k);
    }
    if forall|i: int|
        0 <= i < s.positions.len() ==> (#[trigger] s.positions[i]).position_id != position_id {
        if records::listed(s.positions, position_id) {
            let i = choose|i: int|
                0 <= i < s.positions.len() && (#[trigger] s.positions[i]).key() == position_id;
            assert(s.positions[i].position_id == position_id);
        }
    }
}

/// A request to close names a position by the id under which it is served.
/// With a volume in its body that volume is closed, and without one the whole
/// position.
pub proof fn law_served_position_is_closed(
    s: state::StateView,
    position: state::Position,
    body: Option<routes::positions::CloseBody>,
)
    ensures
        match routes::positions::position_to_close(
            dto::position_dto(position, s.symbols).id,
            body,
        ) {
            Ok((position_id, volume)) => {
                &&& position_id == position.position_id
                &&& body matches Some(b) ==> volume == b.volume
                &&& body is None ==> volume is None
            },
            Err(_) => false,
        },
{
    text::law_decimal_round_trip(position.position_id);
}

/// A request to close that the bot loop did is answered with the position as
/// it is served, the first with the id, or with an error that names the id
/// where there is none. Every other outcome is an error that says why.
pub proof fn law_answers_to_a_close(
    s: state::StateView,
    position_id: i64,
    event: CommandEvent,
    k: int,
)
    ensures
        match routes::positions::close_answer(s, position_id, event) {
            Ok(position) => {
                &&& event is Done
                &&& text::text_i64(position.id) == Some(position_id)
                &&& routes::positions::served_positions(s).contains(position)
                &&& records::is_first(s.positions, position_id, k) ==> position
                    == routes::positions::served_positions(s)[k]
            },
            Err(error) => {
                &&& error.details is None
                &&& match event {
                    CommandEvent::Done => !records::listed(s.positions, position_id)
                        && error.status == 404 && error.code == "position_not_found"@
                        && error.message == "position "@ + text::int_text(position_id as int)
                        + " not found after close request"@,
                    CommandEvent::SendFailed { message } => error.status == 500 && error.code
                        == "bot_channel_closed"@ && error.message == message@,
                    CommandEvent::Refused { message } => error.status == 400 && error.code
                        == "close_rejected"@ && error.message == message@,
                    CommandEvent::Dropped => error.status == 500 && error.code
                        == "bot_channel_dropped"@ && error.message == "bot loop dropped response"@,
                }
            },
        },
{
    if event is Done && records::listed(s.positions, position_id) {
        let first = records::lemma_first_place(s.positions, position_id);
        text::law_decimal_round_trip(position_id);
        assert(s.positions[first].key() == position_id);
        assert(routes::positions::served_positions(s)[first] == dto::position_dto(
            s.positions[first],
            s.symbols,
        ));
        if records::is_first(s.positions, position_id, k) {
            records::lemma_first(s.positions, position_id, k);
        }
    }
}

} // verus!
