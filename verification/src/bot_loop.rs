//! What the bot does with what it is told: the broker's messages, the
//! commands of the API, and the clock. Each function takes the state and an
//! event, brings the state up to date, and says what is to be sent to the
//! broker and pushed to the clients.

use vstd::prelude::*;

use crate::dto;
use crate::dto::{
    rfc3339_from_ms, time_of_tick, Account, ConnectionState, OrderStatus, Side, Trade, WsFrame,
};
use crate::proto;
use crate::proto::{
    AssetListRes, ClosePositionDetail, Deal, ErrorRes, ExecutionEvent, NewOrderReq,
    OrderErrorEvent, ProtoOrder, ProtoPosition, ReconcileRes, Request, SpotEvent, SymbolsListRes,
    Trader,
};
use crate::records;
use crate::state;
use crate::state::{
    order_from_proto, parse_order_type, parse_side, position_from_proto, AppState, BotCommand,
    Order, PlaceOrderArgs, PlaceOrderResult, Position, Quote, DEFAULT_MONEY_DIGITS,
    STATUS_DISCONNECTED, TRADES_CAPACITY,
};
use crate::symbols;
use crate::symbols::SymbolCatalog;
use crate::text;
use crate::text::{concat2, concat3, i64_text};
use crate::units::{Double, Money};

verus! {

// ------------------------------------------------------------------- frames

/// The frame that tells of a position.
pub fn position_frame(p: &Position, symbols: &SymbolCatalog) -> (r: WsFrame)
    ensures
        r@ == (dto::FrameView::PositionUpdate { position: dto::position_dto(*p, symbols@) }),
{
    WsFrame::PositionUpdate { position: dto::Position::from_state(p, symbols) }
}

/// The frame that tells of an order.
pub fn order_frame(o: &Order, symbols: &SymbolCatalog) -> (r: WsFrame)
    ensures
        r@ == (dto::FrameView::OrderUpdate { order: dto::order_dto(*o, symbols@) }),
{
    WsFrame::OrderUpdate { order: dto::Order::from_state(o, symbols) }
}

// ------------------------------------------------------------ closed trades

/// The history with one more trade at its end. At capacity, the oldest trade
/// makes room.
pub open spec fn with_trade(
    trades: Seq<dto::TradeView>,
    trade: dto::TradeView,
) -> Seq<dto::TradeView> {
    if trades.len() >= TRADES_CAPACITY {
        trades.drop_first().push(trade)
    } else {
        trades.push(trade)
    }
}

/// The trade that a closing deal completes. The deal is on the opposite side
/// of the position that it closes.
pub open spec fn trade_of(
    deal: Deal,
    detail: ClosePositionDetail,
    position: Position,
    symbols: symbols::CatalogView,
) -> dto::TradeView {
    dto::TradeView {
        id: text::int_text(deal.deal_id as int),
        position_id: text::int_text(deal.position_id as int),
        symbol: symbols.name(deal.symbol_id),
        side: if deal.trade_side == proto::TRADE_SIDE_BUY {
            Side::Sell
        } else {
            Side::Buy
        },
        volume: detail.closed_volume.unwrap_or(deal.filled_volume),
        open_price: detail.entry_price,
        close_price: deal.execution_price.unwrap_or(Double::spec_zero()),
        pnl: Money {
            amount: detail.gross_profit,
            digits: detail.money_digits.unwrap_or(DEFAULT_MONEY_DIGITS) as i32,
        },
        opened_at: dto::rfc3339_text(position.open_timestamp_ms.unwrap_or(0)),
        closed_at: dto::rfc3339_text(deal.execution_timestamp),
    }
}

/// Adds the trade of a closing deal to the history.
pub fn append_trade(
    state: &mut AppState,
    deal: &Deal,
    detail: &ClosePositionDetail,
    position_snapshot: &Position,
)
    ensures
        final(state)@ == (state::StateView {
            trades: with_trade(
                old(state)@.trades,
                trade_of(*deal, *detail, *position_snapshot, old(state)@.symbols),
            ),
            ..old(state)@
        }),
{
    let position_side = if deal.trade_side == proto::TRADE_SIDE_BUY {
        Side::Sell
    } else {
        Side::Buy
    };
    let trade = Trade {
        id: i64_text(deal.deal_id),
        position_id: i64_text(deal.position_id),
        symbol: state.symbols.name(deal.symbol_id),
        side: position_side,
        volume: detail.closed_volume.unwrap_or(deal.filled_volume),
        open_price: detail.entry_price,
        close_price: deal.execution_price.unwrap_or(Double::zero()),
        pnl: Money {
            amount: detail.gross_profit,
            digits: detail.money_digits.unwrap_or(DEFAULT_MONEY_DIGITS) as i32,
        },
        opened_at: rfc3339_from_ms(position_snapshot.open_timestamp_ms.unwrap_or(0)),
        closed_at: rfc3339_from_ms(deal.execution_timestamp),
    };
    if state.trades.len() >= TRADES_CAPACITY {
        let _oldest = state.trades.pop_front();
        assert(dto::trade_views(state.trades@) =~= old(state)@.trades.drop_first());
    }
    let ghost kept = dto::trade_views(state.trades@);
    state.trades.push_back(trade);
    assert(dto::trade_views(state.trades@) =~= kept.push(trade@));
}

// --------------------------------------------------------------- executions

/// Whether the broker reports the position as closed.
pub open spec fn is_closed(pos: ProtoPosition) -> bool {
    pos.position_status == proto::POSITION_STATUS_CLOSED
}

/// Whether nothing more will happen to the order.
pub open spec fn is_terminal(order: ProtoOrder) -> bool {
    ||| order.order_status == proto::ORDER_STATUS_FILLED
    ||| order.order_status == proto::ORDER_STATUS_CANCELLED
    ||| order.order_status == proto::ORDER_STATUS_EXPIRED
    ||| order.order_status == proto::ORDER_STATUS_REJECTED
}

/// The history after an execution: a closing deal adds a trade.
pub open spec fn trades_after(s: state::StateView, exec: ExecutionEvent) -> Seq<dto::TradeView> {
    match exec.position {
        Some(pos) => match exec.deal {
            Some(deal) => match deal.close_position_detail {
                Some(detail) => if is_closed(pos) {
                    with_trade(
                        s.trades,
                        trade_of(deal, detail, state::position_of(pos), s.symbols),
                    )
                } else {
                    s.trades
                },
                None => s.trades,
            },
            None => s.trades,
        },
        None => s.trades,
    }
}

/// The positions after an execution.
pub open spec fn positions_after(s: state::StateView, exec: ExecutionEvent) -> Seq<Position> {
    match exec.position {
        Some(pos) => records::updated(s.positions, state::position_of(pos), is_closed(pos)),
        None => s.positions,
    }
}

/// The orders after an execution.
pub open spec fn orders_after(s: state::StateView, exec: ExecutionEvent) -> Seq<Order> {
    match exec.order {
        Some(order) => records::updated(s.orders, state::order_of(order), is_terminal(order)),
        None => s.orders,
    }
}

/// The state after an execution. Nothing but the positions, the orders and
/// the history changes.
pub open spec fn after_execution(
    s: state::StateView,
    exec: ExecutionEvent,
) -> state::StateView {
    state::StateView {
        positions: positions_after(s, exec),
        orders: orders_after(s, exec),
        trades: trades_after(s, exec),
        ..s
    }
}

/// The frames that tell of an execution: first of the position, then of the
/// order.
pub open spec fn execution_frames(
    symbols: symbols::CatalogView,
    exec: ExecutionEvent,
) -> Seq<dto::FrameView> {
    let of_position = match exec.position {
        Some(pos) => if is_closed(pos) {
            seq![
                dto::FrameView::PositionClosed {
                    position_id: text::int_text(pos.position_id as int),
                },
            ]
        } else {
            seq![
                dto::FrameView::PositionUpdate {
                    position: dto::position_dto(state::position_of(pos), symbols),
                },
            ]
        },
        None => Seq::empty(),
    };
    let of_order = match exec.order {
        Some(order) => seq![
            dto::FrameView::OrderUpdate { order: dto::order_dto(state::order_of(order), symbols) },
            dto::FrameView::Execution {
                order_id: text::int_text(order.order_id as int),
                status: OrderStatus::of_text(state::order_of(order).status@),
                detail: None,
            },
        ],
        None => Seq::empty(),
    };
    of_position + of_order
}

/// Brings the state up to date with an execution, and gives the frames that
/// tell of it.
pub fn apply_execution(state: &mut AppState, exec: &ExecutionEvent) -> (frames: Vec<WsFrame>)
    ensures
        final(state)@ == after_execution(old(state)@, *exec),
        dto::frame_views(frames@) == execution_frames(old(state)@.symbols, *exec),
{
    let mut frames: Vec<WsFrame> = Vec::new();
    assert(dto::frame_views(frames@) =~= Seq::empty());
    if let Some(pos) = &exec.position {
        let closed = pos.position_status == proto::POSITION_STATUS_CLOSED;
        let updated = position_from_proto(pos);
        if closed {
            if let Some(deal) = &exec.deal {
                if let Some(detail) = &deal.close_position_detail {
                    append_trade(state, deal, detail, &updated);
                }
            }
        }
        records::update(&mut state.positions, updated, closed);
        if closed {
            frames.push(WsFrame::PositionClosed { position_id: i64_text(pos.position_id) });
        } else {
            frames.push(position_frame(&updated, &state.symbols));
        }
    }
    let ghost of_position = dto::frame_views(frames@);
    assert(of_position =~= execution_frames(
        old(state)@.symbols,
        ExecutionEvent { order: None, ..*exec },
    ));
    if let Some(order) = &exec.order {
        let updated = order_from_proto(order);
        let terminal = order.order_status == proto::ORDER_STATUS_FILLED || order.order_status
            == proto::ORDER_STATUS_CANCELLED || order.order_status == proto::ORDER_STATUS_EXPIRED
            || order.order_status == proto::ORDER_STATUS_REJECTED;
        records::update(&mut state.orders, updated, terminal);
        frames.push(order_frame(&updated, &state.symbols));
        frames.push(
            WsFrame::Execution {
                order_id: i64_text(order.order_id),
                status: OrderStatus::from_internal(updated.status),
                detail: None,
            },
        );
    }
    assert(dto::frame_views(frames@) =~= execution_frames(old(state)@.symbols, *exec));
    frames
}

// --------------------------------------------------------- broker messages

/// What the payload of a message is decoded as.
#[derive(Clone, Copy, Debug, PartialEq, Eq, Structural)]
pub enum PayloadForm {
    /// The payload is not looked at.
    Nothing,
    Spot,
    Execution,
    OrderError,
    Error,
    Symbols,
    Trader,
    Assets,
    Reconcile,
}

/// The payload of a message.
#[derive(Debug)]
pub enum Payload {
    /// The message has none.
    Missing,
    /// There is one, which is not looked at.
    Unread,
    Spot(SpotEvent),
    Execution(ExecutionEvent),
    OrderError(OrderErrorEvent),
    Error(ErrorRes),
    Symbols(SymbolsListRes),
    Trader(Trader),
    Assets(AssetListRes),
    Reconcile(ReconcileRes),
}

/// A message from the broker.
#[derive(Debug)]
pub struct Message {
    pub payload_type: u32,
    pub payload: Payload,
}

impl Payload {
    /// Whether this is a payload in the form, or no payload.
    pub open spec fn fits(self, form: PayloadForm) -> bool {
        match self {
            Payload::Missing => true,
            Payload::Unread => form == PayloadForm::Nothing,
            Payload::Spot(..) => form == PayloadForm::Spot,
            Payload::Execution(..) => form == PayloadForm::Execution,
            Payload::OrderError(..) => form == PayloadForm::OrderError,
            Payload::Error(..) => form == PayloadForm::Error,
            Payload::Symbols(..) => form == PayloadForm::Symbols,
            Payload::Trader(..) => form == PayloadForm::Trader,
            Payload::Assets(..) => form == PayloadForm::Assets,
            Payload::Reconcile(..) => form == PayloadForm::Reconcile,
        }
    }
}

/// The form of the events that the broker sends on its own.
pub open spec fn event_form(payload_type: u32) -> PayloadForm {
    if payload_type == proto::OA_SPOT_EVENT {
        PayloadForm::Spot
    } else if payload_type == proto::OA_EXECUTION_EVENT {
        PayloadForm::Execution
    } else if payload_type == proto::OA_ORDER_ERROR_EVENT {
        PayloadForm::OrderError
    } else if payload_type == proto::OA_ERROR_RES {
        PayloadForm::Error
    } else {
        PayloadForm::Nothing
    }
}

fn form_of_event(payload_type: u32) -> (r: PayloadForm)
    ensures
        r == event_form(payload_type),
{
    if payload_type == proto::OA_SPOT_EVENT {
        PayloadForm::Spot
    } else if payload_type == proto::OA_EXECUTION_EVENT {
        PayloadForm::Execution
    } else if payload_type == proto::OA_ORDER_ERROR_EVENT {
        PayloadForm::OrderError
    } else if payload_type == proto::OA_ERROR_RES {
        PayloadForm::Error
    } else {
        PayloadForm::Nothing
    }
}

/// What comes of a message: an answer to the broker, and frames for the
/// clients.
#[derive(Debug)]
pub struct Reaction {
    pub reply: Option<Request>,
    pub frames: Vec<WsFrame>,
}

/// The quote that a tick makes.
pub open spec fn spot_quote(spot: SpotEvent) -> Quote {
    Quote {
        symbol_id: spot.symbol_id,
        bid: spot.bid,
        ask: spot.ask,
        timestamp_ms: spot.timestamp,
    }
}

/// The state after a message.
pub open spec fn after_message(s: state::StateView, msg: Message) -> state::StateView {
    match msg.payload {
        Payload::Spot(spot) => state::StateView {
            quotes: s.quotes.insert(spot.symbol_id, spot_quote(spot)),
            ..s
        },
        Payload::Execution(exec) => after_execution(s, exec),
        _ => s,
    }
}

/// The answer to a message: a heartbeat is answered with a heartbeat.
pub open spec fn message_reply(msg: Message) -> Option<proto::RequestView> {
    if msg.payload_type == proto::HEARTBEAT_EVENT {
        Some(proto::RequestView::Heartbeat)
    } else {
        None
    }
}

/// The frames that tell of a message. A tick is told of only when it has both
/// prices, and an order error only when it names an order.
pub open spec fn message_frames(
    symbols: symbols::CatalogView,
    msg: Message,
) -> Seq<dto::FrameView> {
    match msg.payload {
        Payload::Spot(spot) => match (spot.bid, spot.ask) {
            (Some(bid), Some(ask)) => seq![
                dto::FrameView::Tick {
                    symbol: symbols.name(spot.symbol_id),
                    bid,
                    ask,
                    time: dto::tick_time(spot.timestamp),
                },
            ],
            _ => Seq::empty(),
        },
        Payload::Execution(exec) => execution_frames(symbols, exec),
        Payload::OrderError(err) => match err.order_id {
            Some(order_id) => seq![
                dto::FrameView::Execution {
                    order_id: text::int_text(order_id as int),
                    status: OrderStatus::Rejected,
                    detail: Some(
                        err.error_code@ + ": "@ + text::text_or_empty(err.description),
                    ),
                },
            ],
            None => Seq::empty(),
        },
        _ => Seq::empty(),
    }
}

/// Brings the state up to date with a message that the broker sent on its
/// own, and says what comes of it.
pub fn handle_incoming(state: &mut AppState, msg: &Message) -> (r: Reaction)
    requires
        msg.payload.fits(event_form(msg.payload_type)),
    ensures
        final(state)@ == after_message(old(state)@, *msg),
        proto::opt_request(r.reply) == message_reply(*msg),
        dto::frame_views(r.frames@) == message_frames(old(state)@.symbols, *msg),
{
    let mut frames: Vec<WsFrame> = Vec::new();
    let mut reply: Option<Request> = None;
    if msg.payload_type == proto::HEARTBEAT_EVENT {
        reply = Some(Request::Heartbeat);
    }
    match &msg.payload {
        Payload::Spot(spot) => {
            let quote = Quote {
                symbol_id: spot.symbol_id,
                bid: spot.bid,
                ask: spot.ask,
                timestamp_ms: spot.timestamp,
            };
            state.quotes.insert(quote);
            if let (Some(bid), Some(ask)) = (spot.bid, spot.ask) {
                frames.push(
                    WsFrame::Tick {
                        symbol: state.symbols.name(spot.symbol_id),
                        bid,
                        ask,
                        time: time_of_tick(spot.timestamp),
                    },
                );
            }
        },
        Payload::Execution(exec) => {
            frames = apply_execution(state, exec);
        },
        Payload::OrderError(err) => {
            if let Some(order_id) = err.order_id {
                let description = match &err.description {
                    Some(d) => d.clone(),
                    None => String::new(),
                };
                frames.push(
                    WsFrame::Execution {
                        order_id: i64_text(order_id),
                        status: OrderStatus::Rejected,
                        detail: Some(
                            concat3(err.error_code.as_str(), ": ", description.as_str()),
                        ),
                    },
                );
            }
        },
        _ => {},
    }
    assert(dto::frame_views(frames@) =~= message_frames(old(state)@.symbols, *msg));
    Reaction { reply, frames }
}

// ------------------------------------------------------------------ start-up

/// Where the start-up stands: which answer of the broker is awaited.
#[derive(Clone, Copy, Debug, PartialEq, Eq, Structural)]
pub enum Phase {
    /// The list of symbols.
    Symbols,
    /// The trader.
    Trader,
    /// The list of assets, for the currency of the trader.
    Assets { trader: Trader },
    /// The open positions and pending orders.
    Reconcile,
    /// Nothing: the bot is up.
    Ready,
}

impl Phase {
    /// The payload type of the awaited answer.
    pub open spec fn awaits(self, payload_type: u32) -> bool {
        match self {
            Phase::Symbols => payload_type == proto::OA_SYMBOLS_LIST_RES,
            Phase::Trader => payload_type == proto::OA_TRADER_RES,
            Phase::Assets { .. } => payload_type == proto::OA_ASSET_LIST_RES,
            Phase::Reconcile => payload_type == proto::OA_RECONCILE_RES,
            Phase::Ready => false,
        }
    }

    /// The form of a payload in this phase: that of the awaited answer, or
    /// that of an event which comes in between.
    pub open spec fn form(self, payload_type: u32) -> PayloadForm {
        if self.awaits(payload_type) {
            match self {
                Phase::Symbols => PayloadForm::Symbols,
                Phase::Trader => PayloadForm::Trader,
                Phase::Assets { .. } => PayloadForm::Assets,
                Phase::Reconcile => PayloadForm::Reconcile,
                Phase::Ready => PayloadForm::Nothing,
            }
        } else {
            event_form(payload_type)
        }
    }

    fn is_awaited(&self, payload_type: u32) -> (r: bool)
        ensures
            r == self.awaits(payload_type),
    {
        match self {
            Phase::Symbols => payload_type == proto::OA_SYMBOLS_LIST_RES,
            Phase::Trader => payload_type == proto::OA_TRADER_RES,
            Phase::Assets { .. } => payload_type == proto::OA_ASSET_LIST_RES,
            Phase::Reconcile => payload_type == proto::OA_RECONCILE_RES,
            Phase::Ready => false,
        }
    }

    /// What the payload of a message is to be decoded as.
    pub fn payload_form(&self, payload_type: u32) -> (r: PayloadForm)
        ensures
            r == self.form(payload_type),
    {
        if self.is_awaited(payload_type) {
            match self {
                Phase::Symbols => PayloadForm::Symbols,
                Phase::Trader => PayloadForm::Trader,
                Phase::Assets { .. } => PayloadForm::Assets,
                Phase::Reconcile => PayloadForm::Reconcile,
                Phase::Ready => PayloadForm::Nothing,
            }
        } else {
            form_of_event(payload_type)
        }
    }
}

/// The symbols that have a name, with it.
pub open spec fn named_symbols(list: Seq<proto::LightSymbol>) -> Seq<(i64, Seq<char>)>
    decreases list.len(),
{
    if list.len() == 0 {
        Seq::empty()
    } else {
        let before = named_symbols(list.drop_last());
        match list.last().symbol_name {
            Some(name) => before.push((list.last().symbol_id, name@)),
            None => before,
        }
    }
}

/// Fills the catalog from the list of symbols, and says how many have a name.
pub fn fetch_symbols(state: &mut AppState, res: &SymbolsListRes) -> (n: usize)
    ensures
        final(state)@ == (state::StateView {
            symbols: old(state)@.symbols.with_symbols(named_symbols(res.symbol@)),
            ..old(state)@
        }),
        n == named_symbols(res.symbol@).len(),
{
    let mut entries: Vec<(i64, &str)> = Vec::new();
    assert(symbols::pairs(entries@) =~= named_symbols(res.symbol@.take(0)));
    for i in 0..res.symbol.len()
        invariant
            symbols::pairs(entries@) == named_symbols(res.symbol@.take(i as int)),
    {
        assert(res.symbol@.take(i + 1).drop_last() =~= res.symbol@.take(i as int));
        let ghost before = entries@;
        let symbol = &res.symbol[i];
        if let Some(name) = &symbol.symbol_name {
            entries.push((symbol.symbol_id, name.as_str()));
            assert(symbols::pairs(entries@) =~= symbols::pairs(before).push(
                (symbol.symbol_id, name@),
            ));
        }
    }
    assert(res.symbol@.take(res.symbol@.len() as int) =~= res.symbol@);
    state.symbols.populate(entries.as_slice())
}

/// The name of the first asset with the id.
pub open spec fn asset_name(assets: Seq<proto::Asset>, asset_id: i64) -> Option<Seq<char>>
    decreases assets.len(),
{
    if assets.len() == 0 {
        None
    } else if assets[0].asset_id == asset_id {
        Some(assets[0].name@)
    } else {
        asset_name(assets.drop_first(), asset_id)
    }
}

/// Finds the name of an asset.
pub fn fetch_asset_name(res: &AssetListRes, asset_id: i64) -> (r: Option<String>)
    ensures
        text::opt_text(r) == asset_name(res.asset@, asset_id),
{
    assert(res.asset@.skip(0) =~= res.asset@);
    for i in 0..res.asset.len()
        invariant
            asset_name(res.asset@, asset_id) == asset_name(res.asset@.skip(i as int), asset_id),
    {
        assert(res.asset@.skip(i as int).drop_first() =~= res.asset@.skip(i + 1));
        if res.asset[i].asset_id == asset_id {
            return Some(res.asset[i].name.clone());
        }
    }
    None
}

/// The account of a trader. Until the broker tells otherwise, the equity, the
/// margin and the free margin track the balance. Where the asset has no name,
/// the currency is the US dollar.
pub open spec fn account_of(
    account_id: i64,
    trader: Trader,
    currency: Option<Seq<char>>,
) -> dto::AccountView {
    let digits = trader.money_digits.unwrap_or(DEFAULT_MONEY_DIGITS) as i16 as i32;
    let balance = Money { amount: trader.balance, digits };
    dto::AccountView {
        id: text::int_text(account_id as int),
        balance,
        equity: balance,
        margin: balance,
        free_margin: balance,
        currency: match currency {
            Some(name) => name,
            None => "USD"@,
        },
    }
}

/// Sets the account from the trader and the list of assets.
pub fn fetch_trader(state: &mut AppState, trader: &Trader, assets: &AssetListRes)
    ensures
        final(state)@ == (state::StateView {
            account: Some(
                account_of(
                    old(state)@.account_id,
                    *trader,
                    asset_name(assets.asset@, trader.deposit_asset_id),
                ),
            ),
            ..old(state)@
        }),
{
    let digits = trader.money_digits.unwrap_or(DEFAULT_MONEY_DIGITS) as i16 as i32;
    let balance = Money { amount: trader.balance, digits };
    let currency = match fetch_asset_name(assets, trader.deposit_asset_id) {
        Some(name) => name,
        None => "USD".to_owned(),
    };
    state.account = Some(
        Account {
            id: i64_text(state.account_id),
            balance,
            equity: balance,
            margin: balance,
            free_margin: balance,
            currency,
        },
    );
}

/// Sets the positions and orders to what the broker has.
pub fn initial_reconcile(state: &mut AppState, res: &ReconcileRes)
    ensures
        final(state)@ == (state::StateView {
            positions: res.position@.map_values(|p: ProtoPosition| state::position_of(p)),
            orders: res.order@.map_values(|o: ProtoOrder| state::order_of(o)),
            ..old(state)@
        }),
{
    let mut positions: Vec<Position> = Vec::new();
    for i in 0..res.position.len()
        invariant
            positions@.len() == i,
            forall|k: int|
                0 <= k < i ==> #[trigger] positions@[k] == state::position_of(res.position@[k]),
    {
        positions.push(position_from_proto(&res.position[i]));
    }
    let mut orders: Vec<Order> = Vec::new();
    for i in 0..res.order.len()
        invariant
            orders@.len() == i,
            forall|k: int| 0 <= k < i ==> #[trigger] orders@[k] == state::order_of(res.order@[k]),
    {
        orders.push(order_from_proto(&res.order[i]));
    }
    assert(positions@ =~= res.position@.map_values(|p: ProtoPosition| state::position_of(p)));
    assert(orders@ =~= res.order@.map_values(|o: ProtoOrder| state::order_of(o)));
    state.positions = positions;
    state.orders = orders;
}

/// Why the start-up failed.
#[derive(Clone, Copy, Debug, PartialEq, Eq, Structural)]
pub enum StartupError {
    TraderWithoutPayload,
    AssetsWithoutPayload,
}

/// What comes of a message during start-up.
#[derive(Debug)]
pub struct StartupStep {
    /// The phase that follows, or why there is none.
    pub next: Result<Phase, StartupError>,
    pub send: Option<Request>,
    pub frames: Vec<WsFrame>,
}

/// The request that the start-up begins with.
pub fn begin_startup(account_id: i64) -> (r: (Phase, Request))
    ensures
        r.0 == Phase::Symbols,
        Some(r.1@) == phase_request(r.0, account_id),
        r.1@ == (proto::RequestView::SymbolsList { account_id, include_archived_symbols: false }),
{
    (Phase::Symbols, Request::SymbolsList { account_id, include_archived_symbols: false })
}

/// The phase that follows a message. Only the awaited answer leads on; the
/// list of symbols and the positions may come without a payload, the trader
/// and the list of assets may not.
pub open spec fn next_phase(phase: Phase, msg: Message) -> Result<Phase, StartupError> {
    if !phase.awaits(msg.payload_type) {
        Ok(phase)
    } else {
        match phase {
            Phase::Symbols => Ok(Phase::Trader),
            Phase::Trader => match msg.payload {
                Payload::Trader(trader) => Ok(Phase::Assets { trader }),
                _ => Err(StartupError::TraderWithoutPayload),
            },
            Phase::Assets { .. } => match msg.payload {
                Payload::Assets(..) => Ok(Phase::Reconcile),
                _ => Err(StartupError::AssetsWithoutPayload),
            },
            _ => Ok(Phase::Ready),
        }
    }
}

/// The request that goes out when a phase begins.
pub open spec fn phase_request(phase: Phase, account_id: i64) -> Option<proto::RequestView> {
    match phase {
        Phase::Symbols => Some(
            proto::RequestView::SymbolsList { account_id, include_archived_symbols: false },
        ),
        Phase::Trader => Some(proto::RequestView::Trader { account_id }),
        Phase::Assets { .. } => Some(proto::RequestView::AssetList { account_id }),
        Phase::Reconcile => Some(
            proto::RequestView::Reconcile { account_id, return_protection_orders: false },
        ),
        Phase::Ready => None,
    }
}

/// The state after a message during start-up.
pub open spec fn after_startup_message(
    s: state::StateView,
    phase: Phase,
    msg: Message,
) -> state::StateView {
    if !phase.awaits(msg.payload_type) {
        after_message(s, msg)
    } else {
        match (phase, msg.payload) {
            (Phase::Symbols, Payload::Symbols(res)) => state::StateView {
                symbols: s.symbols.with_symbols(named_symbols(res.symbol@)),
                ..s
            },
            (Phase::Assets { trader }, Payload::Assets(res)) => state::StateView {
                account: Some(
                    account_of(
                        s.account_id,
                        trader,
                        asset_name(res.asset@, trader.deposit_asset_id),
                    ),
                ),
                ..s
            },
            (Phase::Reconcile, Payload::Reconcile(res)) => state::StateView {
                positions: res.position@.map_values(|p: ProtoPosition| state::position_of(p)),
                orders: res.order@.map_values(|o: ProtoOrder| state::order_of(o)),
                ..s
            },
            _ => s,
        }
    }
}

/// What is sent to the broker on a message during start-up.
pub open spec fn startup_request(
    account_id: i64,
    phase: Phase,
    msg: Message,
) -> Option<proto::RequestView> {
    if !phase.awaits(msg.payload_type) {
        message_reply(msg)
    } else {
        match next_phase(phase, msg) {
            Ok(next) => phase_request(next, account_id),
            Err(_) => None,
        }
    }
}

/// What is pushed to the clients on a message during start-up.
pub open spec fn startup_frames(
    symbols: symbols::CatalogView,
    phase: Phase,
    msg: Message,
) -> Seq<dto::FrameView> {
    if phase.awaits(msg.payload_type) {
        Seq::empty()
    } else {
        message_frames(symbols, msg)
    }
}

/// Takes in a message during start-up. A message that is not the awaited
/// answer is dealt with as it would be later, so that no update is lost.
pub fn startup(state: &mut AppState, phase: Phase, msg: &Message) -> (r: StartupStep)
    requires
        msg.payload.fits(phase.form(msg.payload_type)),
    ensures
        final(state)@ == after_startup_message(old(state)@, phase, *msg),
        r.next == next_phase(phase, *msg),
        proto::opt_request(r.send) == startup_request(old(state)@.account_id, phase, *msg),
        dto::frame_views(r.frames@) == startup_frames(old(state)@.symbols, phase, *msg),
{
    if !phase.is_awaited(msg.payload_type) {
        let reaction = handle_incoming(state, msg);
        return StartupStep {
            next: Ok(phase),
            send: reaction.reply,
            frames: reaction.frames,
        };
    }
    let frames: Vec<WsFrame> = Vec::new();
    assert(dto::frame_views(frames@) =~= Seq::empty());
    let account_id = state.account_id;
    match phase {
        Phase::Symbols => {
            if let Payload::Symbols(res) = &msg.payload {
                let _count = fetch_symbols(state, res);
            }
            StartupStep {
                next: Ok(Phase::Trader),
                send: Some(Request::Trader { account_id }),
                frames,
            }
        },
        Phase::Trader => match &msg.payload {
            Payload::Trader(trader) => StartupStep {
                next: Ok(Phase::Assets { trader: *trader }),
                send: Some(Request::AssetList { account_id }),
                frames,
            },
            _ => StartupStep {
                next: Err(StartupError::TraderWithoutPayload),
                send: None,
                frames,
            },
        },
        Phase::Assets { trader } => match &msg.payload {
            Payload::Assets(res) => {
                fetch_trader(state, &trader, res);
                StartupStep {
                    next: Ok(Phase::Reconcile),
                    send: Some(Request::Reconcile { account_id, return_protection_orders: false }),
                    frames,
                }
            },
            _ => StartupStep {
                next: Err(StartupError::AssetsWithoutPayload),
                send: None,
                frames,
            },
        },
        _ => {
            if let Payload::Reconcile(res) = &msg.payload {
                initial_reconcile(state, res);
            }
            StartupStep { next: Ok(Phase::Ready), send: None, frames }
        },
    }
}

/// The ids of the symbols that the catalog knows by name, in order.
pub open spec fn resolved(
    symbols: symbols::CatalogView,
    names: Seq<Seq<char>>,
) -> Seq<i64>
    decreases names.len(),
{
    if names.len() == 0 {
        Seq::empty()
    } else {
        let before = resolved(symbols, names.drop_last());
        match symbols.id(names.last()) {
            Some(id) => before.push(id),
            None => before,
        }
    }
}

/// The names that the catalog does not know, in order.
pub open spec fn unresolved(
    symbols: symbols::CatalogView,
    names: Seq<Seq<char>>,
) -> Seq<Seq<char>>
    decreases names.len(),
{
    if names.len() == 0 {
        Seq::empty()
    } else {
        let before = unresolved(symbols, names.drop_last());
        if symbols.id(names.last()) is None {
            before.push(names.last())
        } else {
            before
        }
    }
}

/// The names that [`subscribe_to_spots`] skips because they are not in the
/// catalog.
pub fn unresolved_names(state: &AppState, symbol_names: &Vec<String>) -> (out: Vec<String>)
    ensures
        text::texts(out@) == unresolved(state@.symbols, text::texts(symbol_names@)),
{
    let ghost names = text::texts(symbol_names@);
    let mut out: Vec<String> = Vec::new();
    assert(text::texts(out@) =~= unresolved(state@.symbols, names.take(0)));
    for i in 0..symbol_names.len()
        invariant
            names == text::texts(symbol_names@),
            text::texts(out@) == unresolved(state@.symbols, names.take(i as int)),
    {
        assert(names.take(i + 1).drop_last() =~= names.take(i as int));
        assert(names.take(i + 1).last() == symbol_names@[i as int]@);
        if state.symbols.id(symbol_names[i].as_str()).is_none() {
            let ghost before = out@;
            let name = symbol_names[i].clone();
            out.push(name);
            assert(text::texts(out@) =~= text::texts(before).push(name@));
        }
    }
    assert(names.take(symbol_names@.len() as int) =~= names);
    out
}

/// The request for the ticks of the named symbols that the catalog knows, if
/// it knows any.
pub open spec fn spots_request(
    s: state::StateView,
    names: Seq<Seq<char>>,
) -> Option<proto::RequestView> {
    let ids = resolved(s.symbols, names);
    if ids.len() == 0 {
        None
    } else {
        Some(
            proto::RequestView::SubscribeSpots {
                account_id: s.account_id,
                symbol_id: ids,
                subscribe_to_spot_timestamp: true,
            },
        )
    }
}

/// The request for the ticks of the named symbols. Names that are not in the
/// catalog are skipped; where none is left, there is nothing to request.
pub fn subscribe_to_spots(state: &AppState, symbol_names: &Vec<String>) -> (r: Option<Request>)
    ensures
        proto::opt_request(r) == spots_request(state@, text::texts(symbol_names@)),
{
    let ghost names = text::texts(symbol_names@);
    let mut ids: Vec<i64> = Vec::new();
    for i in 0..symbol_names.len()
        invariant
            names == text::texts(symbol_names@),
            ids@ == resolved(state@.symbols, names.take(i as int)),
    {
        assert(names.take(i + 1).drop_last() =~= names.take(i as int));
        assert(names.take(i + 1).last() == symbol_names@[i as int]@);
        if let Some(id) = state.symbols.id(symbol_names[i].as_str()) {
            ids.push(id);
        }
    }
    assert(names.take(symbol_names@.len() as int) =~= names);
    if ids.len() == 0 {
        return None;
    }
    Some(
        Request::SubscribeSpots {
            account_id: state.account_id,
            symbol_id: ids,
            subscribe_to_spot_timestamp: true,
        },
    )
}

// ------------------------------------------------------------------ commands

/// What comes of a command: a request to the broker, or a refusal.
#[derive(Debug)]
pub enum CommandStep {
    Send(Request),
    Refuse(String),
}

pub enum CommandView {
    Send(proto::RequestView),
    Refuse(Seq<char>),
}

impl CommandStep {
    pub open spec fn view(&self) -> CommandView {
        match self {
            CommandStep::Send(request) => CommandView::Send(request@),
            CommandStep::Refuse(message) => CommandView::Refuse(message@),
        }
    }
}

/// The request that places an order, or why it cannot be made.
pub open spec fn order_request(
    account_id: i64,
    args: state::PlaceOrderArgsView,
) -> CommandView {
    match state::side_number(args.side) {
        None => CommandView::Refuse("invalid side: "@ + args.side),
        Some(trade_side) => match state::order_type_number(args.order_type) {
            None => CommandView::Refuse("invalid order_type: "@ + args.order_type),
            Some(order_type) => CommandView::Send(
                proto::RequestView::NewOrder(
                    NewOrderReq {
                        account_id,
                        symbol_id: args.symbol_id,
                        order_type,
                        trade_side,
                        volume: args.volume,
                        limit_price: args.limit_price,
                        stop_price: args.stop_price,
                        stop_loss: args.stop_loss,
                        take_profit: args.take_profit,
                    },
                ),
            ),
        },
    }
}

/// The request that places an order.
pub fn place_order(account_id: i64, args: &PlaceOrderArgs) -> (r: CommandStep)
    ensures
        r@ == order_request(account_id, args@),
{
    let trade_side = match parse_side(args.side.as_str()) {
        Some(n) => n,
        None => {
            return CommandStep::Refuse(concat2("invalid side: ", args.side.as_str()));
        },
    };
    let order_type = match parse_order_type(args.order_type.as_str()) {
        Some(n) => n,
        None => {
            return CommandStep::Refuse(concat2("invalid order_type: ", args.order_type.as_str()));
        },
    };
    CommandStep::Send(
        Request::NewOrder(
            NewOrderReq {
                account_id,
                symbol_id: args.symbol_id,
                order_type,
                trade_side,
                volume: args.volume,
                limit_price: args.limit_price,
                stop_price: args.stop_price,
                stop_loss: args.stop_loss,
                take_profit: args.take_profit,
            },
        ),
    )
}

/// Whether the order counts as accepted, and the message that says so, once
/// the request was sent; else why it could not be.
pub open spec fn sent_answer(sent: Result<(), Seq<char>>) -> Result<(bool, Seq<char>), Seq<char>> {
    match sent {
        Ok(_) => Ok((true, "order sent to server"@)),
        Err(e) => Err(e),
    }
}

/// What the outcome of sending reads as.
pub open spec fn sent_view(sent: Result<(), String>) -> Result<(), Seq<char>> {
    match sent {
        Ok(_) => Ok(()),
        Err(e) => Err(e@),
    }
}

/// The answer to the command that placed an order, once the request was sent
/// or could not be.
pub fn order_sent(sent: Result<(), String>) -> (r: Result<PlaceOrderResult, String>)
    ensures
        match sent {
            Ok(_) => r matches Ok(result) && result.accepted && result.message@
                == "order sent to server"@,
            Err(e) => r == Err::<PlaceOrderResult, String>(e),
        },
        match sent_answer(sent_view(sent)) {
            Ok((accepted, message)) => r matches Ok(result) && result.accepted == accepted
                && result.message@ == message,
            Err(message) => r matches Err(e) && e@ == message,
        },
{
    match sent {
        Ok(_) => Ok(
            PlaceOrderResult { accepted: true, message: "order sent to server".to_owned() },
        ),
        Err(e) => Err(e),
    }
}

/// What comes of a command. A position that is closed as a whole is closed
/// with the volume that it has.
pub open spec fn command_step(s: state::StateView, cmd: BotCommand) -> CommandView {
    match cmd {
        BotCommand::PlaceOrder { args } => order_request(s.account_id, args@),
        BotCommand::CancelOrder { order_id } => CommandView::Send(
            proto::RequestView::CancelOrder { account_id: s.account_id, order_id },
        ),
        BotCommand::ClosePosition { position_id, volume } => match volume {
            Some(volume) => CommandView::Send(
                proto::RequestView::ClosePosition { account_id: s.account_id, position_id, volume },
            ),
            None => if records::listed(s.positions, position_id) {
                CommandView::Send(
                    proto::RequestView::ClosePosition {
                        account_id: s.account_id,
                        position_id,
                        volume: s.positions[records::first(s.positions, position_id)].volume,
                    },
                )
            } else {
                CommandView::Refuse("position not found"@)
            },
        },
    }
}

/// Takes in a command of the API.
pub fn handle_command(state: &AppState, cmd: &BotCommand) -> (r: CommandStep)
    ensures
        r@ == command_step(state@, *cmd),
{
    let account_id = state.account_id;
    match cmd {
        BotCommand::PlaceOrder { args } => place_order(account_id, args),
        BotCommand::CancelOrder { order_id } => CommandStep::Send(
            Request::CancelOrder { account_id, order_id: *order_id },
        ),
        BotCommand::ClosePosition { position_id, volume } => {
            let volume = match volume {
                Some(v) => *v,
                None => match records::find(&state.positions, *position_id) {
                    Some(i) => state.positions[i].volume,
                    None => {
                        return CommandStep::Refuse("position not found".to_owned());
                    },
                },
            };
            CommandStep::Send(
                Request::ClosePosition { account_id, position_id: *position_id, volume },
            )
        },
    }
}

// ------------------------------------------------------------------ main loop

/// How long it is from one heartbeat to the next, in milliseconds.
pub const HEARTBEAT_INTERVAL_MS: u64 = 10_000;

/// What the main loop waits for.
#[derive(Debug)]
pub enum RunEvent {
    /// The loop begins.
    Started,
    /// A message of the broker came in.
    Received(Message),
    /// The connection failed.
    ReadFailed,
    /// It is time for a heartbeat.
    Tick,
    /// A heartbeat went out, or failed to.
    HeartbeatSent { now_ms: i64 },
    /// A command of the API came in.
    Command(BotCommand),
}

impl RunEvent {
    /// Whether the payload of a message has the form of its type.
    pub open spec fn well_formed(self) -> bool {
        match self {
            RunEvent::Received(msg) => msg.payload.fits(event_form(msg.payload_type)),
            _ => true,
        }
    }
}

/// What the main loop is to do.
#[derive(Debug)]
pub struct RunStep {
    /// What to send to the broker.
    pub send: Option<Request>,
    /// The refusal of a command that nothing is sent for.
    pub refuse: Option<String>,
    /// What to push to the clients.
    pub frames: Vec<WsFrame>,
    /// Whether the loop ends.
    pub stop: bool,
}

/// The state after an event of the main loop.
pub open spec fn after_event(s: state::StateView, event: RunEvent) -> state::StateView {
    match event {
        RunEvent::Received(msg) => after_message(s, msg),
        RunEvent::ReadFailed => state::StateView { status: STATUS_DISCONNECTED, ..s },
        RunEvent::HeartbeatSent { now_ms } => state::StateView { last_heartbeat_at: now_ms, ..s },
        _ => s,
    }
}

/// What is sent to the broker on an event.
pub open spec fn event_request(
    s: state::StateView,
    event: RunEvent,
) -> Option<proto::RequestView> {
    match event {
        RunEvent::Received(msg) => message_reply(msg),
        RunEvent::Tick => Some(proto::RequestView::Heartbeat),
        RunEvent::Command(cmd) => match command_step(s, cmd) {
            CommandView::Send(request) => Some(request),
            CommandView::Refuse(_) => None,
        },
        _ => None,
    }
}

/// How a command is refused on an event.
pub open spec fn event_refusal(s: state::StateView, event: RunEvent) -> Option<Seq<char>> {
    match event {
        RunEvent::Command(cmd) => match command_step(s, cmd) {
            CommandView::Send(_) => None,
            CommandView::Refuse(message) => Some(message),
        },
        _ => None,
    }
}

/// What is pushed to the clients on an event.
pub open spec fn event_frames(s: state::StateView, event: RunEvent) -> Seq<dto::FrameView> {
    match event {
        RunEvent::Started => seq![
            dto::FrameView::Status { connection: ConnectionState::of_raw(s.status) },
        ],
        RunEvent::Received(msg) => message_frames(s.symbols, msg),
        RunEvent::ReadFailed => seq![
            dto::FrameView::Status { connection: ConnectionState::Disconnected },
        ],
        RunEvent::HeartbeatSent { now_ms } => seq![dto::FrameView::Heartbeat { at: now_ms }],
        _ => Seq::empty(),
    }
}

/// Whether the loop ends with the event.
pub open spec fn ends_the_loop(event: RunEvent) -> bool {
    event is ReadFailed
}

/// One turn of the main loop.
pub fn run(state: &mut AppState, event: &RunEvent) -> (r: RunStep)
    requires
        event.well_formed(),
    ensures
        final(state)@ == after_event(old(state)@, *event),
        proto::opt_request(r.send) == event_request(old(state)@, *event),
        text::opt_text(r.refuse) == event_refusal(old(state)@, *event),
        dto::frame_views(r.frames@) == event_frames(old(state)@, *event),
        r.stop == ends_the_loop(*event),
{
    let mut frames: Vec<WsFrame> = Vec::new();
    let mut send: Option<Request> = None;
    let mut refuse: Option<String> = None;
    let mut stop: bool = false;
    match event {
        RunEvent::Started => {
            frames.push(
                WsFrame::Status { connection: ConnectionState::from_raw(state.status()) },
            );
        },
        RunEvent::Received(msg) => {
            let reaction = handle_incoming(state, msg);
            send = reaction.reply;
            frames = reaction.frames;
        },
        RunEvent::ReadFailed => {
            state.set_status(STATUS_DISCONNECTED);
            frames.push(WsFrame::Status { connection: ConnectionState::Disconnected });
            stop = true;
        },
        RunEvent::Tick => {
            send = Some(Request::Heartbeat);
        },
        RunEvent::HeartbeatSent { now_ms } => {
            state.mark_heartbeat_at(*now_ms);
            frames.push(WsFrame::Heartbeat { at: *now_ms });
        },
        RunEvent::Command(cmd) => {
            match handle_command(state, cmd) {
                CommandStep::Send(request) => {
                    send = Some(request);
                },
                CommandStep::Refuse(message) => {
                    refuse = Some(message);
                },
            }
        },
    }
    assert(dto::frame_views(frames@) =~= event_frames(old(state)@, *event));
    RunStep { send, refuse, frames, stop }
}

} // verus!
