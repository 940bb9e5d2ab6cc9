//! What an execution event does, told by the fields of the event: which
//! values are listed and served afterwards, which frames go out, and which
//! trade is recorded.

use vstd::prelude::*;

use crate::bot_loop;
use crate::dto;
use crate::dto::{OrderKind, OrderStatus, Side};
use crate::proto;
use crate::proto::{ClosePositionDetail, Deal, ExecutionEvent, ProtoOrder, ProtoPosition};
use crate::records;
use crate::records::Record;
use crate::routes;
use crate::state;
use crate::state::TRADES_CAPACITY;
use crate::symbols;
use crate::text;
use crate::units::Money;

verus! {

// -------------------------------------------------------------------- names

/// The side survives the way from the broker's number to the API: what the
/// broker calls a buy is a buy, and everything else is a sell.
pub proof fn law_side_of_a_number(trade_side: i32)
    ensures
        Side::of_text(state::side_text(trade_side)@) == Side::Buy <==> trade_side
            == proto::TRADE_SIDE_BUY,
        trade_side == proto::TRADE_SIDE_SELL ==> Side::of_text(state::side_text(trade_side)@)
            == Side::Sell,
        trade_side == proto::TRADE_SIDE_BUY || trade_side == proto::TRADE_SIDE_SELL
            ==> state::side_number(state::side_text(trade_side)@) == Some(trade_side),
{
    reveal_strlit("BUY");
    reveal_strlit("SELL");
    assert("BUY"@.len() == 3 && "SELL"@.len() == 4);
}

/// The kind of an order survives the way from the broker's number to the API.
/// A stop-limit order shows as a stop order, and an order of a kind that the
/// API does not have as a market order.
pub proof fn law_kind_of_a_number(order_type: i32)
    ensures
        ({
            let kind = OrderKind::of_text(state::order_type_text(order_type)@);
            &&& kind == OrderKind::Limit <==> order_type == proto::ORDER_TYPE_LIMIT
            &&& kind == OrderKind::Stop <==> order_type == proto::ORDER_TYPE_STOP || order_type
                == proto::ORDER_TYPE_STOP_LIMIT
        }),
        order_type == proto::ORDER_TYPE_MARKET || order_type == proto::ORDER_TYPE_LIMIT
            || order_type == proto::ORDER_TYPE_STOP || order_type == proto::ORDER_TYPE_STOP_LIMIT
            ==> state::order_type_number(state::order_type_text(order_type)@) == Some(order_type),
{
    reveal_strlit("MARKET");
    reveal_strlit("LIMIT");
    reveal_strlit("STOP");
    reveal_strlit("STOP_LIMIT");
    reveal_strlit("UNKNOWN");
    assert("MARKET"@.len() == 6 && "LIMIT"@.len() == 5 && "STOP"@.len() == 4 && "STOP_LIMIT"@.len()
        == 10 && "UNKNOWN"@.len() == 7);
}

/// The status of an order survives the way from the broker's number to the
/// API. An expired order shows as rejected, and an order in a status that the
/// API does not have as pending.
pub proof fn law_status_of_a_number(order_status: i32)
    ensures
        ({
            let status = OrderStatus::of_text(state::order_status_text(order_status)@);
            &&& status == OrderStatus::Filled <==> order_status == proto::ORDER_STATUS_FILLED
            &&& status == OrderStatus::Cancelled <==> order_status
                == proto::ORDER_STATUS_CANCELLED
            &&& status == OrderStatus::Rejected <==> order_status == proto::ORDER_STATUS_REJECTED
                || order_status == proto::ORDER_STATUS_EXPIRED
        }),
{
    reveal_strlit("ACCEPTED");
    reveal_strlit("FILLED");
    reveal_strlit("REJECTED");
    reveal_strlit("EXPIRED");
    reveal_strlit("CANCELLED");
    reveal_strlit("UNKNOWN");
    assert("ACCEPTED"@.len() == 8 && "FILLED"@.len() == 6 && "REJECTED"@.len() == 8
        && "EXPIRED"@.len() == 7 && "CANCELLED"@.len() == 9 && "UNKNOWN"@.len() == 7);
    assert("ACCEPTED"@[0] == 'A' && "REJECTED"@[0] == 'R' && "EXPIRED"@[0] == 'E'
        && "UNKNOWN"@[0] == 'U');
}

// ------------------------------------------------------------------- values

/// Whether the served order has the values that the broker reports.
pub open spec fn tells_of_order(
    view: dto::OrderView,
    order: ProtoOrder,
    catalog: symbols::CatalogView,
) -> bool {
    &&& text::text_i64(view.id) == Some(order.order_id)
    &&& view.symbol == catalog.name(order.trade_data.symbol_id)
    &&& view.side == Side::Buy <==> order.trade_data.trade_side == proto::TRADE_SIDE_BUY
    &&& view.volume == order.trade_data.volume
    &&& view.kind == OrderKind::Limit <==> order.order_type == proto::ORDER_TYPE_LIMIT
    &&& view.kind == OrderKind::Stop <==> order.order_type == proto::ORDER_TYPE_STOP
        || order.order_type == proto::ORDER_TYPE_STOP_LIMIT
    &&& view.kind == OrderKind::Limit ==> view.price == order.limit_price
    &&& view.kind == OrderKind::Stop ==> view.price == order.stop_price
    &&& view.kind == OrderKind::Market ==> view.price is None
    &&& view.stop_loss == order.stop_loss
    &&& view.take_profit == order.take_profit
    &&& view.status == OrderStatus::Filled <==> order.order_status == proto::ORDER_STATUS_FILLED
    &&& view.status == OrderStatus::Cancelled <==> order.order_status
        == proto::ORDER_STATUS_CANCELLED
    &&& view.status == OrderStatus::Rejected <==> order.order_status
        == proto::ORDER_STATUS_REJECTED || order.order_status == proto::ORDER_STATUS_EXPIRED
    &&& order.trade_data.open_timestamp matches Some(ms) ==> view.created_at == dto::rfc3339_text(
        ms,
    )
    &&& order.trade_data.open_timestamp is None ==> view.created_at == dto::rfc3339_text(0)
}

/// Whether the amount is that number of the smallest units, of which there
/// are ten to the power of the reported digits to the whole. Where the broker
/// does not say, there are two digits.
pub open spec fn tells_of_money(money: Money, amount: i64, money_digits: Option<u32>) -> bool {
    &&& money.amount == amount
    &&& money_digits matches Some(digits) ==> money.digits == digits as i32
    &&& money_digits matches Some(digits) ==> digits <= i32::MAX ==> money.digits == digits
    &&& money_digits is None ==> money.digits == 2
}

/// Whether the served position has the values that the broker reports.
pub open spec fn tells_of_position(
    view: dto::PositionView,
    pos: ProtoPosition,
    catalog: symbols::CatalogView,
) -> bool {
    &&& text::text_i64(view.id) == Some(pos.position_id)
    &&& view.symbol == catalog.name(pos.trade_data.symbol_id)
    &&& view.side == Side::Buy <==> pos.trade_data.trade_side == proto::TRADE_SIDE_BUY
    &&& view.volume == pos.trade_data.volume
    &&& pos.price matches Some(price) ==> view.open_price == price
    &&& pos.price is None ==> view.open_price.bits == 0
    &&& view.pnl.bits == 0
    &&& tells_of_money(view.swap, pos.swap, pos.money_digits)
    &&& pos.commission matches Some(c) ==> tells_of_money(view.commission, c, pos.money_digits)
    &&& pos.commission is None ==> tells_of_money(view.commission, 0, pos.money_digits)
    &&& pos.trade_data.open_timestamp matches Some(ms) ==> view.opened_at == dto::rfc3339_text(ms)
    &&& pos.trade_data.open_timestamp is None ==> view.opened_at == dto::rfc3339_text(0)
}

/// Whether the listed position has the values that the broker reports.
pub open spec fn holds_position(p: state::Position, pos: ProtoPosition) -> bool {
    &&& p.position_id == pos.position_id
    &&& p.symbol_id == pos.trade_data.symbol_id
    &&& p.side@ == "BUY"@ <==> pos.trade_data.trade_side == proto::TRADE_SIDE_BUY
    &&& p.side@ == "SELL"@ <==> pos.trade_data.trade_side != proto::TRADE_SIDE_BUY
    &&& p.volume == pos.trade_data.volume
    &&& p.entry_price == pos.price
    &&& p.stop_loss == pos.stop_loss
    &&& p.take_profit == pos.take_profit
    &&& tells_of_money(p.swap, pos.swap, pos.money_digits)
    &&& pos.commission matches Some(c) ==> tells_of_money(p.commission, c, pos.money_digits)
    &&& pos.commission is None ==> tells_of_money(p.commission, 0, pos.money_digits)
    &&& p.open_timestamp_ms == pos.trade_data.open_timestamp
}

/// Whether the listed order has the values that the broker reports.
pub open spec fn holds_order(o: state::Order, order: ProtoOrder) -> bool {
    &&& o.order_id == order.order_id
    &&& o.symbol_id == order.trade_data.symbol_id
    &&& o.side@ == "BUY"@ <==> order.trade_data.trade_side == proto::TRADE_SIDE_BUY
    &&& o.side@ == "SELL"@ <==> order.trade_data.trade_side != proto::TRADE_SIDE_BUY
    &&& o.volume == order.trade_data.volume
    &&& o.order_type@ == "MARKET"@ <==> order.order_type == proto::ORDER_TYPE_MARKET
    &&& o.order_type@ == "LIMIT"@ <==> order.order_type == proto::ORDER_TYPE_LIMIT
    &&& o.order_type@ == "STOP"@ <==> order.order_type == proto::ORDER_TYPE_STOP
    &&& o.order_type@ == "STOP_LIMIT"@ <==> order.order_type == proto::ORDER_TYPE_STOP_LIMIT
    &&& o.status@ == "ACCEPTED"@ <==> order.order_status == proto::ORDER_STATUS_ACCEPTED
    &&& o.status@ == "FILLED"@ <==> order.order_status == proto::ORDER_STATUS_FILLED
    &&& o.status@ == "REJECTED"@ <==> order.order_status == proto::ORDER_STATUS_REJECTED
    &&& o.status@ == "EXPIRED"@ <==> order.order_status == proto::ORDER_STATUS_EXPIRED
    &&& o.status@ == "CANCELLED"@ <==> order.order_status == proto::ORDER_STATUS_CANCELLED
    &&& o.limit_price == order.limit_price
    &&& o.stop_price == order.stop_price
    &&& o.stop_loss == order.stop_loss
    &&& o.take_profit == order.take_profit
    &&& o.created_at_ms == order.trade_data.open_timestamp
}

/// What the bot keeps of a reported position are the reported values.
pub proof fn law_reported_position_is_kept(pos: ProtoPosition)
    ensures
        holds_position(state::position_of(pos), pos),
{
    reveal_strlit("BUY");
    reveal_strlit("SELL");
    assert("BUY"@.len() == 3 && "SELL"@.len() == 4);
}

/// What the bot keeps of a reported order are the reported values.
pub proof fn law_reported_order_is_kept(order: ProtoOrder)
    ensures
        holds_order(state::order_of(order), order),
{
    reveal_strlit("BUY");
    reveal_strlit("SELL");
    reveal_strlit("MARKET");
    reveal_strlit("LIMIT");
    reveal_strlit("STOP");
    reveal_strlit("STOP_LIMIT");
    reveal_strlit("UNKNOWN");
    reveal_strlit("ACCEPTED");
    reveal_strlit("FILLED");
    reveal_strlit("REJECTED");
    reveal_strlit("EXPIRED");
    reveal_strlit("CANCELLED");
    assert("BUY"@.len() == 3 && "SELL"@.len() == 4);
    assert("MARKET"@.len() == 6 && "LIMIT"@.len() == 5 && "STOP"@.len() == 4 && "STOP_LIMIT"@.len()
        == 10 && "UNKNOWN"@.len() == 7);
    assert("ACCEPTED"@.len() == 8 && "FILLED"@.len() == 6 && "REJECTED"@.len() == 8
        && "EXPIRED"@.len() == 7 && "CANCELLED"@.len() == 9);
    assert("ACCEPTED"@[0] == 'A' && "REJECTED"@[0] == 'R' && "EXPIRED"@[0] == 'E'
        && "UNKNOWN"@[0] == 'U');
}

/// What is served of a reported position are the reported values.
pub proof fn law_reported_position_is_told(pos: ProtoPosition, catalog: symbols::CatalogView)
    ensures
        tells_of_position(dto::position_dto(state::position_of(pos), catalog), pos, catalog),
{
    law_side_of_a_number(pos.trade_data.trade_side);
    text::law_decimal_round_trip(pos.position_id);
}

/// What is served of a reported order are the reported values.
pub proof fn law_reported_order_is_told(order: ProtoOrder, catalog: symbols::CatalogView)
    ensures
        tells_of_order(dto::order_dto(state::order_of(order), catalog), order, catalog),
{
    law_side_of_a_number(order.trade_data.trade_side);
    law_kind_of_a_number(order.order_type);
    law_status_of_a_number(order.order_status);
    text::law_decimal_round_trip(order.order_id);
}

// ------------------------------------------------------------------- frames

/// The frames of an execution are those of its position and then those of its
/// order: one for a position and two for an order. The deal adds none.
pub proof fn law_frames_of_position_and_order(catalog: symbols::CatalogView, exec: ExecutionEvent)
    ensures
        bot_loop::execution_frames(catalog, exec) == bot_loop::execution_frames(
            catalog,
            ExecutionEvent { position: exec.position, order: None, deal: None },
        ) + bot_loop::execution_frames(
            catalog,
            ExecutionEvent { position: None, order: exec.order, deal: None },
        ),
        bot_loop::execution_frames(catalog, exec).len() == (if exec.position is Some {
            1nat
        } else {
            0nat
        }) + (if exec.order is Some {
            2nat
        } else {
            0nat
        }),
{
    let none = Seq::<dto::FrameView>::empty();
    let of_position = bot_loop::execution_frames(
        catalog,
        ExecutionEvent { position: exec.position, order: None, deal: None },
    );
    let of_order = bot_loop::execution_frames(
        catalog,
        ExecutionEvent { position: None, order: exec.order, deal: None },
    );
    assert(bot_loop::execution_frames(catalog, exec) =~= of_position + of_order);
}

/// Where an execution has an order, the last frame tells how the order was
/// executed: for that order, without details, with the status that the broker
/// reports. The frame before it is the update of the same order, with the
/// same status. The status is pending exactly where the order stays listed.
pub proof fn law_last_frame_is_the_execution(
    s: state::StateView,
    exec: ExecutionEvent,
    order: ProtoOrder,
)
    requires
        exec.order == Some(order),
    ensures
        ({
            let frames = bot_loop::execution_frames(s.symbols, exec);
            let n = frames.len() as int;
            &&& n >= 2
            &&& match (frames[n - 2], frames[n - 1]) {
                (
                    dto::FrameView::OrderUpdate { order: update },
                    dto::FrameView::Execution { order_id, status, detail },
                ) => {
                    &&& text::text_i64(order_id) == Some(order.order_id)
                    &&& order.order_status == proto::ORDER_STATUS_FILLED ==> status
                        == OrderStatus::Filled
                    &&& order.order_status == proto::ORDER_STATUS_CANCELLED ==> status
                        == OrderStatus::Cancelled
                    &&& order.order_status == proto::ORDER_STATUS_REJECTED || order.order_status
                        == proto::ORDER_STATUS_EXPIRED ==> status == OrderStatus::Rejected
                    &&& status == OrderStatus::Pending <==> order.order_status
                        != proto::ORDER_STATUS_FILLED && order.order_status
                        != proto::ORDER_STATUS_CANCELLED && order.order_status
                        != proto::ORDER_STATUS_REJECTED && order.order_status
                        != proto::ORDER_STATUS_EXPIRED
                    &&& status == OrderStatus::Pending <==> records::listed(
                        bot_loop::after_execution(s, exec).orders,
                        order.order_id,
                    )
                    &&& detail is None
                    &&& update.status == status
                    &&& update.id == order_id
                    &&& tells_of_order(update, order, s.symbols)
                },
                _ => false,
            }
        }),
{
    let item = state::order_of(order);
    law_status_of_a_number(order.order_status);
    law_reported_order_is_told(order, s.symbols);
    text::law_decimal_round_trip(order.order_id);
    records::lemma_done_is_gone(s.orders, item);
    records::lemma_open_is_listed(s.orders, item);
    let after = bot_loop::after_execution(s, exec).orders;
    assert(item.key() == order.order_id);
    if after.contains(item) {
        let i = choose|i: int| 0 <= i < after.len() && after[i] == item;
        assert(after[i].key() == order.order_id);
    }
    let frames = bot_loop::execution_frames(s.symbols, exec);
    let n = frames.len() as int;
    assert(frames[n - 1] is Execution);
    assert(frames[n - 2] is OrderUpdate);
}

/// Where an execution has a position, the first frame tells of it: that it is
/// closed, where the broker reports that, and else its reported values.
pub proof fn law_first_frame_is_the_position(
    catalog: symbols::CatalogView,
    exec: ExecutionEvent,
    pos: ProtoPosition,
)
    requires
        exec.position == Some(pos),
    ensures
        ({
            let frames = bot_loop::execution_frames(catalog, exec);
            &&& frames.len() > 0
            &&& match frames[0] {
                dto::FrameView::PositionClosed { position_id } => pos.position_status
                    == proto::POSITION_STATUS_CLOSED && text::text_i64(position_id) == Some(
                    pos.position_id,
                ),
                dto::FrameView::PositionUpdate { position } => pos.position_status
                    != proto::POSITION_STATUS_CLOSED && tells_of_position(position, pos, catalog),
                _ => false,
            }
        }),
{
    law_reported_position_is_told(pos, catalog);
    text::law_decimal_round_trip(pos.position_id);
}

// -------------------------------------------------------------------- lists

/// After an execution, the API serves its position as reported, and the same
/// values go out in the frame; a position that the broker reports as closed is
/// served no more.
pub proof fn law_position_is_served_as_reported(
    s: state::StateView,
    exec: ExecutionEvent,
    pos: ProtoPosition,
)
    requires
        exec.position == Some(pos),
    ensures
        ({
            let served = routes::positions::served_positions(bot_loop::after_execution(s, exec));
            let frames = bot_loop::execution_frames(s.symbols, exec);
            &&& pos.position_status == proto::POSITION_STATUS_CLOSED ==> forall|i: int|
                0 <= i < served.len() ==> text::text_i64((#[trigger] served[i]).id) != Some(
                    pos.position_id,
                )
            &&& pos.position_status != proto::POSITION_STATUS_CLOSED ==> exists|i: int|
                0 <= i < served.len() && tells_of_position(#[trigger] served[i], pos, s.symbols)
                    && frames[0] == (dto::FrameView::PositionUpdate { position: served[i] })
        }),
{
    let item = state::position_of(pos);
    let after = bot_loop::after_execution(s, exec);
    let served = routes::positions::served_positions(after);
    let frames = bot_loop::execution_frames(s.symbols, exec);
    records::lemma_done_is_gone(s.positions, item);
    records::lemma_open_is_listed(s.positions, item);
    law_reported_position_is_told(pos, s.symbols);
    if pos.position_status == proto::POSITION_STATUS_CLOSED {
        assert forall|i: int| 0 <= i < served.len() implies text::text_i64((#[trigger] served[i]).id)
            != Some(pos.position_id) by {
            text::law_decimal_round_trip(after.positions[i].position_id);
            assert(after.positions[i].key() != pos.position_id);
        }
    } else {
        let i = choose|i: int| 0 <= i < after.positions.len() && after.positions[i] == item;
        assert(served[i] == dto::position_dto(item, s.symbols));
        assert(frames[0] == (dto::FrameView::PositionUpdate { position: served[i] }));
    }
}

/// After an execution, the API serves its order as reported, and the same
/// values go out in the frame; an order that is filled, cancelled, rejected or
/// expired is served no more.
pub proof fn law_order_is_served_as_reported(
    s: state::StateView,
    exec: ExecutionEvent,
    order: ProtoOrder,
)
    requires
        exec.order == Some(order),
    ensures
        ({
            let served = routes::orders::served_orders(bot_loop::after_execution(s, exec));
            let frames = bot_loop::execution_frames(s.symbols, exec);
            let over = order.order_status == proto::ORDER_STATUS_FILLED || order.order_status
                == proto::ORDER_STATUS_CANCELLED || order.order_status
                == proto::ORDER_STATUS_REJECTED || order.order_status
                == proto::ORDER_STATUS_EXPIRED;
            &&& over ==> forall|i: int|
                0 <= i < served.len() ==> text::text_i64((#[trigger] served[i]).id) != Some(
                    order.order_id,
                )
            &&& !over ==> exists|i: int|
                0 <= i < served.len() && tells_of_order(#[trigger] served[i], order, s.symbols)
                    && frames[frames.len() - 2] == (dto::FrameView::OrderUpdate {
                    order: served[i],
                })
        }),
{
    let item = state::order_of(order);
    let after = bot_loop::after_execution(s, exec);
    let served = routes::orders::served_orders(after);
    let frames = bot_loop::execution_frames(s.symbols, exec);
    records::lemma_done_is_gone(s.orders, item);
    records::lemma_open_is_listed(s.orders, item);
    law_reported_order_is_told(order, s.symbols);
    if bot_loop::is_terminal(order) {
        assert forall|i: int| 0 <= i < served.len() implies text::text_i64((#[trigger] served[i]).id)
            != Some(order.order_id) by {
            text::law_decimal_round_trip(after.orders[i].order_id);
            assert(after.orders[i].key() != order.order_id);
        }
    } else {
        let i = choose|i: int| 0 <= i < after.orders.len() && after.orders[i] == item;
        assert(served[i] == dto::order_dto(item, s.symbols));
        assert(frames[frames.len() - 2] == (dto::FrameView::OrderUpdate { order: served[i] }));
    }
}

/// A position that is reported again keeps its place among the positions, and
/// one that is new becomes the last. The others keep their places.
pub proof fn law_positions_keep_their_places(
    s: state::StateView,
    exec: ExecutionEvent,
    pos: ProtoPosition,
    i: int,
)
    requires
        exec.position == Some(pos),
        pos.position_status != proto::POSITION_STATUS_CLOSED,
        records::unique(s.positions),
        0 <= i < bot_loop::after_execution(s, exec).positions.len(),
    ensures
        ({
            let after = bot_loop::after_execution(s, exec).positions;
            &&& i < s.positions.len() ==> after[i].position_id == s.positions[i].position_id
            &&& after[i].position_id == pos.position_id ==> holds_position(after[i], pos)
            &&& i < s.positions.len() && after[i].position_id != pos.position_id ==> after[i]
                == s.positions[i]
            &&& after.len() > s.positions.len() ==> after.len() == s.positions.len() + 1
                && after.last().position_id == pos.position_id
            &&& s.positions.len() <= after.len()
        }),
{
    let item = state::position_of(pos);
    law_reported_position_is_kept(pos);
    lemma_places(s.positions, item, i);
}

/// An order that is reported again keeps its place among the orders, and one
/// that is new becomes the last. The others keep their places.
pub proof fn law_orders_keep_their_places(
    s: state::StateView,
    exec: ExecutionEvent,
    order: ProtoOrder,
    i: int,
)
    requires
        exec.order == Some(order),
        order.order_status != proto::ORDER_STATUS_FILLED,
        order.order_status != proto::ORDER_STATUS_CANCELLED,
        order.order_status != proto::ORDER_STATUS_REJECTED,
        order.order_status != proto::ORDER_STATUS_EXPIRED,
        records::unique(s.orders),
        0 <= i < bot_loop::after_execution(s, exec).orders.len(),
    ensures
        ({
            let after = bot_loop::after_execution(s, exec).orders;
            &&& i < s.orders.len() ==> after[i].order_id == s.orders[i].order_id
            &&& after[i].order_id == order.order_id ==> holds_order(after[i], order)
            &&& i < s.orders.len() && after[i].order_id != order.order_id ==> after[i]
                == s.orders[i]
            &&& after.len() > s.orders.len() ==> after.len() == s.orders.len() + 1
                && after.last().order_id == order.order_id
            &&& s.orders.len() <= after.len()
        }),
{
    let item = state::order_of(order);
    law_reported_order_is_kept(order);
    lemma_places(s.orders, item, i);
}

/// A report on a listed position takes the place of the first with its id, and
/// one on a position that is not listed is added at the end. Every other
/// entry stays, whatever its id.
pub proof fn law_position_takes_its_place(
    s: state::StateView,
    exec: ExecutionEvent,
    pos: ProtoPosition,
    k: int,
    i: int,
)
    requires
        exec.position == Some(pos),
        pos.position_status != proto::POSITION_STATUS_CLOSED,
    ensures
        ({
            let after = bot_loop::after_execution(s, exec).positions;
            &&& records::is_first(s.positions, pos.position_id, k) ==> {
                &&& after.len() == s.positions.len()
                &&& holds_position(after[k], pos)
                &&& 0 <= i < after.len() && i != k ==> after[i] == s.positions[i]
            }
            &&& !records::listed(s.positions, pos.position_id) ==> {
                &&& after.len() == s.positions.len() + 1
                &&& holds_position(after.last(), pos)
                &&& after.drop_last() == s.positions
            }
        }),
{
    let item = state::position_of(pos);
    law_reported_position_is_kept(pos);
    lemma_taken_place(s.positions, item, k);
}

/// A report on a listed order takes the place of the first with its id, and
/// one on an order that is not listed is added at the end. Every other entry
/// stays, whatever its id.
pub proof fn law_order_takes_its_place(
    s: state::StateView,
    exec: ExecutionEvent,
    order: ProtoOrder,
    k: int,
    i: int,
)
    requires
        exec.order == Some(order),
        order.order_status != proto::ORDER_STATUS_FILLED,
        order.order_status != proto::ORDER_STATUS_CANCELLED,
        order.order_status != proto::ORDER_STATUS_REJECTED,
        order.order_status != proto::ORDER_STATUS_EXPIRED,
    ensures
        ({
            let after = bot_loop::after_execution(s, exec).orders;
            &&& records::is_first(s.orders, order.order_id, k) ==> {
                &&& after.len() == s.orders.len()
                &&& holds_order(after[k], order)
                &&& 0 <= i < after.len() && i != k ==> after[i] == s.orders[i]
            }
            &&& !records::listed(s.orders, order.order_id) ==> {
                &&& after.len() == s.orders.len() + 1
                &&& holds_order(after.last(), order)
                &&& after.drop_last() == s.orders
            }
        }),
{
    let item = state::order_of(order);
    law_reported_order_is_kept(order);
    lemma_taken_place(s.orders, item, k);
}

proof fn lemma_taken_place<T: Record>(list: Seq<T>, item: T, k: int)
    ensures
        records::is_first(list, item.key(), k) ==> records::updated(list, item, false)
            == list.update(k, item),
        !records::listed(list, item.key()) ==> records::updated(list, item, false) == list.push(
            item,
        ) && list.push(item).drop_last() == list,
{
    if records::is_first(list, item.key(), k) {
        records::lemma_first(list, item.key(), k);
    }
    assert(list.push(item).drop_last() =~= list);
}

proof fn lemma_places<T: Record>(list: Seq<T>, item: T, i: int)
    requires
        records::unique(list),
        0 <= i < records::updated(list, item, false).len(),
    ensures
        ({
            let after = records::updated(list, item, false);
            &&& i < list.len() ==> after[i].key() == list[i].key()
            &&& after[i].key() == item.key() ==> after[i] == item
            &&& i < list.len() && after[i].key() != item.key() ==> after[i] == list[i]
            &&& after.len() > list.len() ==> after.len() == list.len() + 1 && after.last() == item
            &&& list.len() <= after.len()
        }),
{
    let id = item.key();
    let after = records::updated(list, item, false);
    if records::listed(list, id) {
        let k = choose|k: int| 0 <= k < list.len() && (#[trigger] list[k]).key() == id;
        assert(records::is_first(list, id, k)) by {
            assert forall|j: int| 0 <= j < k implies (#[trigger] list[j]).key() != id by {
                assert(list[j].key() != list[k].key());
            }
        }
        records::lemma_first(list, id, k);
        if i < k {
            assert(list[i].key() != list[k].key());
        } else if k < i {
            assert(list[k].key() != list[i].key());
        }
    } else if i < list.len() {
        assert(list[i].key() != id);
    }
}

/// A new order that the broker reports is the answer to the request that was
/// waiting for it.
pub proof fn law_new_order_is_the_answer(
    s: state::StateView,
    exec: ExecutionEvent,
    order: ProtoOrder,
    baseline_count: usize,
    waited_ms: u64,
)
    requires
        exec.order == Some(order),
        order.order_status == proto::ORDER_STATUS_ACCEPTED,
        !records::listed(s.orders, order.order_id),
        baseline_count == s.orders.len(),
    ensures
        match routes::orders::place_step(
            bot_loop::after_execution(s, exec),
            baseline_count,
            routes::orders::PlaceEvent::Polled { waited_ms },
        ) {
            routes::orders::PlaceStepView::Placed { order: placed } => tells_of_order(
                placed,
                order,
                s.symbols,
            ),
            _ => false,
        },
{
    law_reported_order_is_told(order, s.symbols);
    let item = state::order_of(order);
    assert(item.key() == order.order_id);
    assert(bot_loop::after_execution(s, exec).orders == s.orders.push(item));
}

// ------------------------------------------------------------------- trades

/// Whether the trade has the values of the closing deal and of the position
/// that it closes.
pub open spec fn tells_of_trade(
    trade: dto::TradeView,
    deal: Deal,
    detail: ClosePositionDetail,
    open_timestamp: Option<i64>,
    catalog: symbols::CatalogView,
) -> bool {
    &&& text::text_i64(trade.id) == Some(deal.deal_id)
    &&& text::text_i64(trade.position_id) == Some(deal.position_id)
    &&& trade.symbol == catalog.name(deal.symbol_id)
    &&& trade.side == Side::Sell <==> deal.trade_side == proto::TRADE_SIDE_BUY
    &&& detail.closed_volume matches Some(volume) ==> trade.volume == volume
    &&& detail.closed_volume is None ==> trade.volume == deal.filled_volume
    &&& trade.open_price == detail.entry_price
    &&& deal.execution_price matches Some(price) ==> trade.close_price == price
    &&& deal.execution_price is None ==> trade.close_price.bits == 0
    &&& tells_of_money(trade.pnl, detail.gross_profit, detail.money_digits)
    &&& open_timestamp matches Some(ms) ==> trade.opened_at == dto::rfc3339_text(ms)
    &&& open_timestamp is None ==> trade.opened_at == dto::rfc3339_text(0)
    &&& trade.closed_at == dto::rfc3339_text(deal.execution_timestamp)
}

/// The trade of a closing deal has the deal's values.
pub proof fn law_trade_has_the_values_of_the_deal(
    deal: Deal,
    detail: ClosePositionDetail,
    position: state::Position,
    catalog: symbols::CatalogView,
)
    ensures
        tells_of_trade(
            bot_loop::trade_of(deal, detail, position, catalog),
            deal,
            detail,
            position.open_timestamp_ms,
            catalog,
        ),
{
    text::law_decimal_round_trip(deal.deal_id);
    text::law_decimal_round_trip(deal.position_id);
}

/// The trade is on the side opposite to that of its closing deal, so that
/// deals on different sides give trades on different sides.
pub proof fn law_trade_is_opposite_to_the_deal(
    deal: Deal,
    other: Deal,
    detail: ClosePositionDetail,
    position: state::Position,
    catalog: symbols::CatalogView,
)
    requires
        deal.trade_side == proto::TRADE_SIDE_BUY,
        other.trade_side == proto::TRADE_SIDE_SELL,
    ensures
        bot_loop::trade_of(deal, detail, position, catalog).side == Side::Sell,
        bot_loop::trade_of(other, detail, position, catalog).side == Side::Buy,
{
}

/// A trade that a closing deal completes is on the side that its position was
/// served with: the broker closes a position by a deal on the other side.
pub proof fn law_trade_has_the_side_of_the_position(
    deal: Deal,
    detail: ClosePositionDetail,
    pos: ProtoPosition,
    catalog: symbols::CatalogView,
)
    requires
        deal.trade_side == proto::TRADE_SIDE_BUY && pos.trade_data.trade_side
            == proto::TRADE_SIDE_SELL || deal.trade_side == proto::TRADE_SIDE_SELL
            && pos.trade_data.trade_side == proto::TRADE_SIDE_BUY,
    ensures
        bot_loop::trade_of(deal, detail, state::position_of(pos), catalog).side
            == dto::position_dto(state::position_of(pos), catalog).side,
{
    law_side_of_a_number(pos.trade_data.trade_side);
}

/// A closing deal on a position that the broker reports as closed is recorded
/// as the newest trade, with its values, and is the first of the first page.
/// The trades before it stay, but for the oldest of a full history.
pub proof fn law_closing_deal_is_recorded(
    s: state::StateView,
    exec: ExecutionEvent,
    pos: ProtoPosition,
    deal: Deal,
    detail: ClosePositionDetail,
    size: nat,
)
    requires
        exec.position == Some(pos),
        exec.deal == Some(deal),
        deal.close_position_detail == Some(detail),
        pos.position_status == proto::POSITION_STATUS_CLOSED,
        size > 0,
    ensures
        ({
            let after = bot_loop::after_execution(s, exec).trades;
            let page = routes::trades::page_of(after, 0, size);
            &&& after.len() > 0
            &&& tells_of_trade(
                after.last(),
                deal,
                detail,
                pos.trade_data.open_timestamp,
                s.symbols,
            )
            &&& page.len() > 0
            &&& page[0] == after.last()
            &&& s.trades.len() < 5_000 ==> after.drop_last() == s.trades
            &&& s.trades.len() >= 5_000 ==> after.drop_last() == s.trades.drop_first()
        }),
{
    let position = state::position_of(pos);
    law_trade_has_the_values_of_the_deal(deal, detail, position, s.symbols);
    let after = bot_loop::after_execution(s, exec).trades;
    assert(TRADES_CAPACITY == 5_000);
    if s.trades.len() < 5_000 {
        assert(after.drop_last() =~= s.trades);
    } else {
        assert(after.drop_last() =~= s.trades.drop_first());
    }
    assert(0 * size == 0) by (nonlinear_arith);
}

/// Without a closing deal, or while the position is not reported as closed,
/// the history stays as it is.
pub proof fn law_no_other_deal_is_recorded(s: state::StateView, exec: ExecutionEvent)
    requires
        match (exec.position, exec.deal) {
            (Some(pos), Some(deal)) => pos.position_status != proto::POSITION_STATUS_CLOSED
                || deal.close_position_detail is None,
            _ => true,
        },
    ensures
        bot_loop::after_execution(s, exec).trades == s.trades,
{
}

/// An execution changes nothing but the positions, the orders and the
/// history: what the account is, the catalog, the quotes and the state of the
/// connection stay.
pub proof fn law_execution_leaves_the_rest(s: state::StateView, exec: ExecutionEvent)
    ensures
        ({
            let after = bot_loop::after_execution(s, exec);
            &&& after.account_id == s.account_id
            &&& after.status == s.status
            &&& after.last_heartbeat_at == s.last_heartbeat_at
            &&& after.account == s.account
            &&& after.quotes == s.quotes
            &&& after.symbols == s.symbols
        }),
{
}

} // verus!
