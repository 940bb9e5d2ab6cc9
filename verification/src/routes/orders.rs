//! `/api/orders`

use vstd::prelude::*;

use crate::dto;
use crate::dto::{Order, PlaceOrderRequest};
use crate::records;
use crate::routes;
use crate::routes::{api_err, ApiError, CommandEvent};
use crate::state;
use crate::state::{AppState, BotCommand, PlaceOrderResult};
use crate::text;
use crate::text::{concat3, i64_text, parse_i64};

verus! {

/// How long to wait for a new order to show before the answer is that it is
/// pending, in milliseconds.
pub const EXEC_SETTLE_TIMEOUT_MS: u64 = 1200;

/// How long to wait between two looks at the orders, in milliseconds.
pub const POLL_INTERVAL_MS: u64 = 20;

// ------------------------------------------------------------------- listing

/// What a list of orders reads as.
pub open spec fn order_views(list: Seq<Order>) -> Seq<dto::OrderView> {
    Seq::new(list.len(), |i: int| list[i]@)
}

/// The pending orders, in order.
pub open spec fn served_orders(s: state::StateView) -> Seq<dto::OrderView> {
    Seq::new(s.orders.len(), |i: int| dto::order_dto(s.orders[i], s.symbols))
}

/// The pending orders.
pub fn list_orders(state: &AppState) -> (out: Vec<Order>)
    ensures
        order_views(out@) == served_orders(state@),
{
    let mut out: Vec<Order> = Vec::new();
    for i in 0..state.orders.len()
        invariant
            out@.len() == i,
            forall|k: int|
                0 <= k < i ==> (#[trigger] out@[k])@ == dto::order_dto(
                    state@.orders[k],
                    state@.symbols,
                ),
    {
        out.push(Order::from_state(&state.orders[i], &state.symbols));
    }
    assert(order_views(out@) =~= served_orders(state@));
    out
}

// ------------------------------------------------------------------- placing

/// An order that is to be handed to the bot loop.
#[derive(Debug)]
pub struct PendingOrder {
    pub command: BotCommand,
    /// How many orders there were before.
    pub baseline_count: usize,
}

/// The parameters of a requested order and the number of orders there are
/// before it, or an error where the symbol is not known.
pub open spec fn order_begun(s: state::StateView, req: dto::PlaceOrderRequestView) -> Result<
    (state::PlaceOrderArgsView, nat),
    routes::ApiErrorView,
> {
    match s.symbols.id(req.symbol) {
        Some(id) => Ok((req.args(id), s.orders.len())),
        None => Err(
            routes::error(
                routes::BAD_REQUEST,
                "bad_request"@,
                "unknown symbol: "@ + req.symbol,
            ),
        ),
    }
}

/// Begins to place an order: the command for the bot loop, or an error where
/// the symbol is not known.
pub fn place_order(state: &AppState, req: PlaceOrderRequest) -> (r: Result<PendingOrder, ApiError>)
    ensures
        match order_begun(state@, req@) {
            Ok((order, count)) => {
                &&& r matches Ok(pending)
                &&& pending.command matches BotCommand::PlaceOrder { args }
                &&& args@ == order
                &&& pending.baseline_count == count
            },
            Err(error) => r matches Err(e) && e@ == error,
        },
{
    match req.into_internal(&state.symbols) {
        Ok(args) => Ok(
            PendingOrder {
                command: BotCommand::PlaceOrder { args },
                baseline_count: state.orders.len(),
            },
        ),
        Err(message) => Err(api_err(routes::BAD_REQUEST, "bad_request", message.as_str())),
    }
}

/// What comes up while an order is being placed.
#[derive(Debug)]
pub enum PlaceEvent {
    /// The command could not be handed to the bot loop.
    SendFailed { message: String },
    /// The bot loop handed the order to the broker.
    Answered { result: PlaceOrderResult },
    /// The bot loop refused the order.
    Refused { message: String },
    /// The bot loop went away without an answer.
    Dropped,
    /// It is time to look at the orders.
    Polled {
        /// How long the wait has lasted, in milliseconds.
        waited_ms: u64,
    },
}

/// What to do about an order that is being placed.
#[derive(Debug)]
pub enum PlaceStep {
    /// Look at the orders again.
    Poll,
    /// Answer with the order.
    Placed { order: Order },
    /// Answer with an error.
    Failed { error: ApiError },
}

pub enum PlaceStepView {
    Poll,
    Placed { order: dto::OrderView },
    Failed { error: routes::ApiErrorView },
}

impl PlaceStep {
    pub open spec fn view(&self) -> PlaceStepView {
        match self {
            PlaceStep::Poll => PlaceStepView::Poll,
            PlaceStep::Placed { order } => PlaceStepView::Placed { order: order@ },
            PlaceStep::Failed { error } => PlaceStepView::Failed { error: error@ },
        }
    }
}

/// What to do about an order after an event. The order shows as the newest of
/// more orders than there were before; an order that does not show in time is
/// pending.
pub open spec fn place_step(
    s: state::StateView,
    baseline_count: usize,
    event: PlaceEvent,
) -> PlaceStepView {
    match event {
        PlaceEvent::SendFailed { message } => PlaceStepView::Failed {
            error: routes::error(
                routes::INTERNAL_SERVER_ERROR,
                "bot_channel_closed"@,
                message@,
            ),
        },
        PlaceEvent::Answered { result } => if result.accepted {
            PlaceStepView::Poll
        } else {
            PlaceStepView::Failed {
                error: routes::error(routes::BAD_REQUEST, "broker_rejected"@, result.message@),
            }
        },
        PlaceEvent::Refused { message } => PlaceStepView::Failed {
            error: routes::error(routes::BAD_REQUEST, "bot_error"@, message@),
        },
        PlaceEvent::Dropped => PlaceStepView::Failed {
            error: routes::error(
                routes::INTERNAL_SERVER_ERROR,
                "bot_channel_dropped"@,
                "bot loop dropped response"@,
            ),
        },
        PlaceEvent::Polled { waited_ms } => if s.orders.len() > baseline_count {
            PlaceStepView::Placed { order: dto::order_dto(s.orders.last(), s.symbols) }
        } else if waited_ms >= EXEC_SETTLE_TIMEOUT_MS {
            PlaceStepView::Failed {
                error: routes::error(
                    routes::ACCEPTED,
                    "pending_execution"@,
                    "order accepted by broker; waiting on execution event (will arrive via WS)"@,
                ),
            }
        } else {
            PlaceStepView::Poll
        },
    }
}

/// Whether an order that has not shown by now is pending.
pub fn wait_is_over(waited_ms: u64) -> (r: bool)
    ensures
        r == (waited_ms >= EXEC_SETTLE_TIMEOUT_MS),
{
    waited_ms >= EXEC_SETTLE_TIMEOUT_MS
}

/// The newest order, where there are more than before.
pub fn wait_for_new_order(state: &AppState, baseline_count: usize) -> (r: Option<Order>)
    ensures
        match r {
            Some(order) => state@.orders.len() > baseline_count && order@ == dto::order_dto(
                state@.orders.last(),
                state@.symbols,
            ),
            None => state@.orders.len() <= baseline_count,
        },
{
    let n = state.orders.len();
    if n > baseline_count {
        Some(Order::from_state(&state.orders[n - 1], &state.symbols))
    } else {
        None
    }
}

/// Goes on placing an order.
pub fn continue_order(state: &AppState, baseline_count: usize, event: PlaceEvent) -> (r: PlaceStep)
    ensures
        r@ == place_step(state@, baseline_count, event),
{
    match event {
        PlaceEvent::SendFailed { message } => PlaceStep::Failed {
            error: api_err(
                routes::INTERNAL_SERVER_ERROR,
                "bot_channel_closed",
                message.as_str(),
            ),
        },
        PlaceEvent::Answered { result } => if result.accepted {
            PlaceStep::Poll
        } else {
            PlaceStep::Failed {
                error: api_err(routes::BAD_REQUEST, "broker_rejected", result.message.as_str()),
            }
        },
        PlaceEvent::Refused { message } => PlaceStep::Failed {
            error: api_err(routes::BAD_REQUEST, "bot_error", message.as_str()),
        },
        PlaceEvent::Dropped => PlaceStep::Failed {
            error: api_err(
                routes::INTERNAL_SERVER_ERROR,
                "bot_channel_dropped",
                "bot loop dropped response",
            ),
        },
        PlaceEvent::Polled { waited_ms } => match wait_for_new_order(state, baseline_count) {
            Some(order) => PlaceStep::Placed { order },
            None => if wait_is_over(waited_ms) {
                PlaceStep::Failed {
                    error: api_err(
                        routes::ACCEPTED,
                        "pending_execution",
                        "order accepted by broker; waiting on execution event (will arrive via WS)",
                    ),
                }
            } else {
                PlaceStep::Poll
            },
        },
    }
}

/// An order that was there before is never the answer to a new one: while no
/// order was added, the answer is not an order.
pub proof fn law_old_orders_are_not_echoed(
    s: state::StateView,
    baseline_count: usize,
    event: PlaceEvent,
)
    requires
        s.orders.len() <= baseline_count,
    ensures
        place_step(s, baseline_count, event) !is Placed,
{
}

/// One look at the orders during the wait.
pub struct Look {
    pub s: state::StateView,
    pub waited_ms: u64,
}

/// Whether the look shows more orders than there were before.
pub open spec fn shows_order(look: Look, baseline_count: usize) -> bool {
    look.s.orders.len() > baseline_count
}

/// What comes of looking until the order shows or the time is over.
pub open spec fn wait_outcome(looks: Seq<Look>, baseline_count: usize) -> PlaceStepView
    decreases looks.len(),
{
    if looks.len() == 0 {
        PlaceStepView::Poll
    } else {
        match place_step(
            looks[0].s,
            baseline_count,
            PlaceEvent::Polled { waited_ms: looks[0].waited_ms },
        ) {
            PlaceStepView::Poll => wait_outcome(looks.drop_first(), baseline_count),
            step => step,
        }
    }
}

/// The wait gives the newest order of the first look that shows more orders
/// than before, unless the time was over at a look before that. It gives up at
/// the first look after the time, if no look up to then showed an order. While
/// neither has come, it goes on.
pub proof fn law_wait_for_new_order(looks: Seq<Look>, baseline_count: usize, k: int)
    requires
        0 <= k < looks.len(),
        forall|j: int|
            0 <= j < k ==> !shows_order(#[trigger] looks[j], baseline_count) && looks[j].waited_ms
                < EXEC_SETTLE_TIMEOUT_MS,
    ensures
        shows_order(looks[k], baseline_count) ==> wait_outcome(looks, baseline_count) == (
        PlaceStepView::Placed {
            order: dto::order_dto(looks[k].s.orders.last(), looks[k].s.symbols),
        }),
        !shows_order(looks[k], baseline_count) && looks[k].waited_ms >= EXEC_SETTLE_TIMEOUT_MS
            ==> wait_outcome(looks, baseline_count) == (PlaceStepView::Failed {
            error: routes::error(
                routes::ACCEPTED,
                "pending_execution"@,
                "order accepted by broker; waiting on execution event (will arrive via WS)"@,
            ),
        }),
        !shows_order(looks[k], baseline_count) && looks[k].waited_ms < EXEC_SETTLE_TIMEOUT_MS && k
            == looks.len() - 1 ==> wait_outcome(looks, baseline_count) is Poll,
    decreases k,
{
    if k > 0 {
        let rest = looks.drop_first();
        assert(!shows_order(looks[0], baseline_count));
        assert forall|j: int| 0 <= j < k - 1 implies !shows_order(
            #[trigger] rest[j],
            baseline_count,
        ) && rest[j].waited_ms < EXEC_SETTLE_TIMEOUT_MS by {
            assert(rest[j] == looks[j + 1]);
        }
        assert(rest[k - 1] == looks[k]);
        law_wait_for_new_order(rest, baseline_count, k - 1);
    } else {
        reveal_with_fuel(wait_outcome, 2);
    }
}

/// Whether the look is the first after the time, and neither it nor a look
/// before it shows an order.
pub open spec fn gives_up_at(looks: Seq<Look>, baseline_count: usize, k: int) -> bool {
    &&& 0 <= k < looks.len()
    &&& looks[k].waited_ms >= EXEC_SETTLE_TIMEOUT_MS
    &&& !shows_order(looks[k], baseline_count)
    &&& forall|j: int|
        0 <= j < k ==> !shows_order(#[trigger] looks[j], baseline_count) && looks[j].waited_ms
            < EXEC_SETTLE_TIMEOUT_MS
}

/// The wait gives up only after the time, and only if no look up to then
/// showed an order.
pub proof fn law_pending_means_no_order(looks: Seq<Look>, baseline_count: usize)
    requires
        wait_outcome(looks, baseline_count) is Failed,
    ensures
        exists|k: int| gives_up_at(looks, baseline_count, k),
    decreases looks.len(),
{
    if looks[0].waited_ms >= EXEC_SETTLE_TIMEOUT_MS {
        assert(gives_up_at(looks, baseline_count, 0));
    } else {
        let rest = looks.drop_first();
        law_pending_means_no_order(rest, baseline_count);
        let k = choose|k: int| gives_up_at(rest, baseline_count, k);
        assert forall|j: int| 0 <= j < k + 1 implies !shows_order(
            #[trigger] looks[j],
            baseline_count,
        ) && looks[j].waited_ms < EXEC_SETTLE_TIMEOUT_MS by {
            if j > 0 {
                assert(rest[j - 1] == looks[j]);
            }
        }
        assert(rest[k] == looks[k + 1]);
        assert(gives_up_at(looks, baseline_count, k + 1));
    }
}

// ---------------------------------------------------------------- cancelling

/// The order that a request to cancel names, or an error where the id is no
/// number.
pub open spec fn order_to_cancel(order_id_str: Seq<char>) -> Result<i64, routes::ApiErrorView> {
    match text::text_i64(order_id_str) {
        Some(order_id) => Ok(order_id),
        None => Err(
            routes::error(routes::BAD_REQUEST, "invalid_order_id"@, "invalid order id"@),
        ),
    }
}

/// Begins to cancel an order: the command for the bot loop, or an error where
/// the id is no number.
pub fn cancel_order(order_id_str: &str) -> (r: Result<BotCommand, ApiError>)
    ensures
        match order_to_cancel(order_id_str@) {
            Ok(order_id) => r == Ok::<BotCommand, ApiError>(BotCommand::CancelOrder { order_id }),
            Err(error) => r matches Err(e) && e@ == error,
        },
{
    match parse_i64(order_id_str) {
        Some(order_id) => Ok(BotCommand::CancelOrder { order_id }),
        None => Err(api_err(routes::BAD_REQUEST, "invalid_order_id", "invalid order id")),
    }
}

/// The answer to a cancellation: the order as it is listed.
pub open spec fn cancel_answer(
    s: state::StateView,
    order_id: i64,
    event: CommandEvent,
) -> Result<dto::OrderView, routes::ApiErrorView> {
    match event {
        CommandEvent::SendFailed { message } => Err(
            routes::error(routes::INTERNAL_SERVER_ERROR, "bot_channel_closed"@, message@),
        ),
        CommandEvent::Done => if records::listed(s.orders, order_id) {
            Ok(dto::order_dto(s.orders[records::first(s.orders, order_id)], s.symbols))
        } else {
            Err(
                routes::error(
                    routes::NOT_FOUND,
                    "order_not_found"@,
                    "order "@ + text::int_text(order_id as int)
                        + " not found after cancel request"@,
                ),
            )
        },
        CommandEvent::Refused { message } => Err(
            routes::error(routes::BAD_REQUEST, "cancel_rejected"@, message@),
        ),
        CommandEvent::Dropped => Err(
            routes::error(
                routes::INTERNAL_SERVER_ERROR,
                "bot_channel_dropped"@,
                "bot loop dropped response"@,
            ),
        ),
    }
}

/// Answers a cancellation.
pub fn finish_cancel(state: &AppState, order_id: i64, event: CommandEvent) -> (r: Result<
    Order,
    ApiError,
>)
    ensures
        match cancel_answer(state@, order_id, event) {
            Ok(order) => r matches Ok(o) && o@ == order,
            Err(e) => r matches Err(err) && err@ == e,
        },
{
    match event {
        CommandEvent::SendFailed { message } => Err(
            api_err(routes::INTERNAL_SERVER_ERROR, "bot_channel_closed", message.as_str()),
        ),
        CommandEvent::Done => match records::find(&state.orders, order_id) {
            Some(i) => Ok(Order::from_state(&state.orders[i], &state.symbols)),
            None => {
                let message = concat3(
                    "order ",
                    i64_text(order_id).as_str(),
                    " not found after cancel request",
                );
                Err(api_err(routes::NOT_FOUND, "order_not_found", message.as_str()))
            },
        },
        CommandEvent::Refused { message } => Err(
            api_err(routes::BAD_REQUEST, "cancel_rejected", message.as_str()),
        ),
        CommandEvent::Dropped => Err(
            api_err(
                routes::INTERNAL_SERVER_ERROR,
                "bot_channel_dropped",
                "bot loop dropped response",
            ),
        ),
    }
}

/// The id under which an order is served names that order in a cancellation.
pub proof fn law_served_order_can_be_cancelled(order: state::Order, s: state::StateView)
    ensures
        text::text_i64(dto::order_dto(order, s.symbols).id) == Some(order.order_id),
{
    text::law_decimal_round_trip(order.order_id);
}

/// Every listed order is served, in its place, under its id and the name of
/// its symbol, with its volume, stop loss and take profit.
pub proof fn law_every_order_is_served(s: state::StateView, i: int)
    ensures
        served_orders(s).len() == s.orders.len(),
        0 <= i < s.orders.len() ==> {
            let served = served_orders(s)[i];
            &&& text::text_i64(served.id) == Some(s.orders[i].order_id)
            &&& served.symbol == s.symbols.name(s.orders[i].symbol_id)
            &&& served.volume == s.orders[i].volume
            &&& served.stop_loss == s.orders[i].stop_loss
            &&& served.take_profit == s.orders[i].take_profit
        },
{
    if 0 <= i < s.orders.len() {
        text::law_decimal_round_trip(s.orders[i].order_id);
    }
}

} // verus!
