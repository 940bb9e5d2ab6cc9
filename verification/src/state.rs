//! What the bot knows of the account: open positions, pending orders, closed
//! trades, quotes and the symbol catalog.

use dashmap::DashMap;
use std::collections::VecDeque;
use vstd::prelude::*;

use crate::dto;
use crate::dto::{now_unix_ms, Account, Trade};
use crate::proto;
use crate::proto::{ProtoOrder, ProtoPosition};
use crate::records::Record;
use crate::symbols;
use crate::symbols::SymbolCatalog;
use crate::text;
use crate::text::same_text;
use crate::units::{Double, Money};

verus! {

pub const STATUS_DISCONNECTED: u8 = 0;

pub const STATUS_CONNECTING: u8 = 1;

pub const STATUS_CONNECTED: u8 = 2;

pub const STATUS_AUTHENTICATED: u8 = 3;

/// How many closed trades are kept.
pub const TRADES_CAPACITY: usize = 5_000;

/// How many decimal digits an amount of money has where the broker does not
/// say.
pub const DEFAULT_MONEY_DIGITS: u32 = 2;

// ------------------------------------------------------------------ records

/// An open position.
#[derive(Clone, Copy, Debug)]
pub struct Position {
    pub position_id: i64,
    pub symbol_id: i64,
    pub side: &'static str,
    pub volume: i64,
    pub entry_price: Option<Double>,
    pub stop_loss: Option<Double>,
    pub take_profit: Option<Double>,
    pub swap: Money,
    pub commission: Money,
    pub open_timestamp_ms: Option<i64>,
}

/// A pending order.
#[derive(Clone, Copy, Debug)]
pub struct Order {
    pub order_id: i64,
    pub symbol_id: i64,
    pub side: &'static str,
    pub volume: i64,
    pub order_type: &'static str,
    pub status: &'static str,
    pub limit_price: Option<Double>,
    pub stop_price: Option<Double>,
    pub stop_loss: Option<Double>,
    pub take_profit: Option<Double>,
    pub created_at_ms: Option<i64>,
}

impl Record for Position {
    open spec fn key(self) -> i64 {
        self.position_id
    }

    fn id(&self) -> (r: i64) {
        self.position_id
    }
}

impl Record for Order {
    open spec fn key(self) -> i64 {
        self.order_id
    }

    fn id(&self) -> (r: i64) {
        self.order_id
    }
}

/// The last tick of a symbol. The prices are in hundred-thousandths.
#[derive(Clone, Copy, Debug, PartialEq, Eq, Structural)]
pub struct Quote {
    pub symbol_id: i64,
    pub bid: Option<u64>,
    pub ask: Option<u64>,
    pub timestamp_ms: Option<i64>,
}

/// The parameters of an order that is to be placed.
#[derive(Debug)]
pub struct PlaceOrderArgs {
    pub symbol_id: i64,
    pub side: String,
    pub order_type: String,
    pub volume: i64,
    pub limit_price: Option<Double>,
    pub stop_price: Option<Double>,
    pub stop_loss: Option<Double>,
    pub take_profit: Option<Double>,
}

pub struct PlaceOrderArgsView {
    pub symbol_id: i64,
    pub side: Seq<char>,
    pub order_type: Seq<char>,
    pub volume: i64,
    pub limit_price: Option<Double>,
    pub stop_price: Option<Double>,
    pub stop_loss: Option<Double>,
    pub take_profit: Option<Double>,
}

impl PlaceOrderArgs {
    pub open spec fn view(&self) -> PlaceOrderArgsView {
        PlaceOrderArgsView {
            symbol_id: self.symbol_id,
            side: self.side@,
            order_type: self.order_type@,
            volume: self.volume,
            limit_price: self.limit_price,
            stop_price: self.stop_price,
            stop_loss: self.stop_loss,
            take_profit: self.take_profit,
        }
    }
}

/// The answer to an order that was handed to the broker.
#[derive(Debug)]
pub struct PlaceOrderResult {
    pub accepted: bool,
    pub message: String,
}

/// What the API asks of the bot loop.
#[derive(Debug)]
pub enum BotCommand {
    PlaceOrder { args: PlaceOrderArgs },
    CancelOrder { order_id: i64 },
    /// Closes a position in part, or as a whole where no volume is given.
    ClosePosition { position_id: i64, volume: Option<i64> },
}

// ------------------------------------------------- from the broker's messages

/// The internal name of a trade side number.
pub open spec fn side_text(trade_side: i32) -> &'static str {
    if trade_side == proto::TRADE_SIDE_BUY {
        "BUY"
    } else {
        "SELL"
    }
}

fn side_name(trade_side: i32) -> (r: &'static str)
    ensures
        r == side_text(trade_side),
{
    if trade_side == proto::TRADE_SIDE_BUY {
        "BUY"
    } else {
        "SELL"
    }
}

/// The internal name of an order type number.
pub open spec fn order_type_text(order_type: i32) -> &'static str {
    if order_type == proto::ORDER_TYPE_MARKET {
        "MARKET"
    } else if order_type == proto::ORDER_TYPE_LIMIT {
        "LIMIT"
    } else if order_type == proto::ORDER_TYPE_STOP {
        "STOP"
    } else if order_type == proto::ORDER_TYPE_STOP_LIMIT {
        "STOP_LIMIT"
    } else {
        "UNKNOWN"
    }
}

fn order_type_name(order_type: i32) -> (r: &'static str)
    ensures
        r == order_type_text(order_type),
{
    if order_type == proto::ORDER_TYPE_MARKET {
        "MARKET"
    } else if order_type == proto::ORDER_TYPE_LIMIT {
        "LIMIT"
    } else if order_type == proto::ORDER_TYPE_STOP {
        "STOP"
    } else if order_type == proto::ORDER_TYPE_STOP_LIMIT {
        "STOP_LIMIT"
    } else {
        "UNKNOWN"
    }
}

/// The internal name of an order status number.
pub open spec fn order_status_text(order_status: i32) -> &'static str {
    if order_status == proto::ORDER_STATUS_ACCEPTED {
        "ACCEPTED"
    } else if order_status == proto::ORDER_STATUS_FILLED {
        "FILLED"
    } else if order_status == proto::ORDER_STATUS_REJECTED {
        "REJECTED"
    } else if order_status == proto::ORDER_STATUS_EXPIRED {
        "EXPIRED"
    } else if order_status == proto::ORDER_STATUS_CANCELLED {
        "CANCELLED"
    } else {
        "UNKNOWN"
    }
}

fn order_status_name(order_status: i32) -> (r: &'static str)
    ensures
        r == order_status_text(order_status),
{
    if order_status == proto::ORDER_STATUS_ACCEPTED {
        "ACCEPTED"
    } else if order_status == proto::ORDER_STATUS_FILLED {
        "FILLED"
    } else if order_status == proto::ORDER_STATUS_REJECTED {
        "REJECTED"
    } else if order_status == proto::ORDER_STATUS_EXPIRED {
        "EXPIRED"
    } else if order_status == proto::ORDER_STATUS_CANCELLED {
        "CANCELLED"
    } else {
        "UNKNOWN"
    }
}

/// The position that the broker describes.
pub open spec fn position_of(pos: ProtoPosition) -> Position {
    let digits = pos.money_digits.unwrap_or(DEFAULT_MONEY_DIGITS) as i32;
    Position {
        position_id: pos.position_id,
        symbol_id: pos.trade_data.symbol_id,
        side: side_text(pos.trade_data.trade_side),
        volume: pos.trade_data.volume,
        entry_price: pos.price,
        stop_loss: pos.stop_loss,
        take_profit: pos.take_profit,
        swap: Money { amount: pos.swap, digits },
        commission: Money { amount: pos.commission.unwrap_or(0), digits },
        open_timestamp_ms: pos.trade_data.open_timestamp,
    }
}

pub fn position_from_proto(pos: &ProtoPosition) -> (r: Position)
    ensures
        r == position_of(*pos),
{
    let digits = pos.money_digits.unwrap_or(DEFAULT_MONEY_DIGITS) as i32;
    Position {
        position_id: pos.position_id,
        symbol_id: pos.trade_data.symbol_id,
        side: side_name(pos.trade_data.trade_side),
        volume: pos.trade_data.volume,
        entry_price: pos.price,
        stop_loss: pos.stop_loss,
        take_profit: pos.take_profit,
        swap: Money { amount: pos.swap, digits },
        commission: Money { amount: pos.commission.unwrap_or(0), digits },
        open_timestamp_ms: pos.trade_data.open_timestamp,
    }
}

/// The order that the broker describes.
pub open spec fn order_of(order: ProtoOrder) -> Order {
    Order {
        order_id: order.order_id,
        symbol_id: order.trade_data.symbol_id,
        side: side_text(order.trade_data.trade_side),
        volume: order.trade_data.volume,
        order_type: order_type_text(order.order_type),
        status: order_status_text(order.order_status),
        limit_price: order.limit_price,
        stop_price: order.stop_price,
        stop_loss: order.stop_loss,
        take_profit: order.take_profit,
        created_at_ms: order.trade_data.open_timestamp,
    }
}

pub fn order_from_proto(order: &ProtoOrder) -> (r: Order)
    ensures
        r == order_of(*order),
{
    Order {
        order_id: order.order_id,
        symbol_id: order.trade_data.symbol_id,
        side: side_name(order.trade_data.trade_side),
        volume: order.trade_data.volume,
        order_type: order_type_name(order.order_type),
        status: order_status_name(order.order_status),
        limit_price: order.limit_price,
        stop_price: order.stop_price,
        stop_loss: order.stop_loss,
        take_profit: order.take_profit,
        created_at_ms: order.trade_data.open_timestamp,
    }
}

/// The trade side number behind an internal name.
pub open spec fn side_number(s: Seq<char>) -> Option<i32> {
    if s == "BUY"@ {
        Some(proto::TRADE_SIDE_BUY)
    } else if s == "SELL"@ {
        Some(proto::TRADE_SIDE_SELL)
    } else {
        None
    }
}

pub fn parse_side(s: &str) -> (r: Option<i32>)
    ensures
        r == side_number(s@),
{
    if same_text(s, "BUY") {
        Some(proto::TRADE_SIDE_BUY)
    } else if same_text(s, "SELL") {
        Some(proto::TRADE_SIDE_SELL)
    } else {
        None
    }
}

/// The order type number behind an internal name.
pub open spec fn order_type_number(s: Seq<char>) -> Option<i32> {
    if s == "MARKET"@ {
        Some(proto::ORDER_TYPE_MARKET)
    } else if s == "LIMIT"@ {
        Some(proto::ORDER_TYPE_LIMIT)
    } else if s == "STOP"@ {
        Some(proto::ORDER_TYPE_STOP)
    } else if s == "STOP_LIMIT"@ {
        Some(proto::ORDER_TYPE_STOP_LIMIT)
    } else {
        None
    }
}

pub fn parse_order_type(s: &str) -> (r: Option<i32>)
    ensures
        r == order_type_number(s@),
{
    if same_text(s, "MARKET") {
        Some(proto::ORDER_TYPE_MARKET)
    } else if same_text(s, "LIMIT") {
        Some(proto::ORDER_TYPE_LIMIT)
    } else if same_text(s, "STOP") {
        Some(proto::ORDER_TYPE_STOP)
    } else if same_text(s, "STOP_LIMIT") {
        Some(proto::ORDER_TYPE_STOP_LIMIT)
    } else {
        None
    }
}

/// The name of a status number on the wire.
pub open spec fn status_text(status: u8) -> Seq<char> {
    match dto::ConnectionState::of_raw(status) {
        dto::ConnectionState::Disconnected => "disconnected"@,
        dto::ConnectionState::Connecting => "connecting"@,
        dto::ConnectionState::Connected => "connected"@,
        dto::ConnectionState::Authenticated => "authenticated"@,
    }
}

pub fn status_str(status: u8) -> (r: &'static str)
    ensures
        r@ == status_text(status),
{
    match dto::ConnectionState::from_raw(status) {
        dto::ConnectionState::Disconnected => "disconnected",
        dto::ConnectionState::Connecting => "connecting",
        dto::ConnectionState::Connected => "connected",
        dto::ConnectionState::Authenticated => "authenticated",
    }
}

// ------------------------------------------------------------------- quotes

/// A quote without its symbol: bid, ask and timestamp.
pub type QuoteRow = (Option<u64>, Option<u64>, Option<i64>);

/// The entries of a map from symbol ids to quotes.
pub uninterp spec fn quote_entries(map: DashMap<i64, QuoteRow>) -> Map<i64, QuoteRow>;

/// `DashMap::new` makes a map without entries.
#[verifier::external_body]
fn new_quotes() -> (made: DashMap<i64, QuoteRow>)
    ensures
        quote_entries(made) == (Map::<i64, QuoteRow>::empty()),
{
    DashMap::new()
}

/// `DashMap::insert` adds the entry, or replaces the value under the key.
#[verifier::external_body]
fn insert_quote(map: &mut DashMap<i64, QuoteRow>, id: i64, row: QuoteRow)
    ensures
        quote_entries(*final(map)) == quote_entries(*old(map)).insert(id, row),
{
    map.insert(id, row);
}

/// `DashMap::iter` walks over each entry once, in an order that is left open.
#[verifier::external_body]
fn list_quotes(map: &DashMap<i64, QuoteRow>) -> (rows: Vec<(i64, QuoteRow)>)
    ensures
        forall|i: int, j: int|
            0 <= i < j < rows@.len() ==> (#[trigger] rows@[i]).0 != (#[trigger] rows@[j]).0,
        forall|i: int|
            0 <= i < rows@.len() ==> quote_entries(*map).contains_key((#[trigger] rows@[i]).0)
                && quote_entries(*map)[rows@[i].0] == rows@[i].1,
        forall|id: i64| #[trigger]
            quote_entries(*map).contains_key(id) ==> exists|i: int|
                0 <= i < rows@.len() && (#[trigger] rows@[i]).0 == id,
{
    map.iter().map(|entry| (*entry.key(), *entry.value())).collect()
}

/// The last quote of each symbol that ticked.
pub struct QuoteBook {
    map: DashMap<i64, QuoteRow>,
}

pub open spec fn quote_of(symbol_id: i64, row: QuoteRow) -> Quote {
    Quote { symbol_id, bid: row.0, ask: row.1, timestamp_ms: row.2 }
}

impl QuoteBook {
    /// The quotes by symbol id.
    pub closed spec fn view(&self) -> Map<i64, Quote> {
        quote_entries(self.map).map_entries(|id: i64, row: QuoteRow| quote_of(id, row))
    }

    pub fn new() -> (book: Self)
        ensures
            book@ == Map::<i64, Quote>::empty(),
    {
        let book = QuoteBook { map: new_quotes() };
        assert(book@ =~= Map::empty());
        book
    }

    /// Keeps the quote as the last one of its symbol.
    pub fn insert(&mut self, quote: Quote)
        ensures
            final(self)@ == old(self)@.insert(quote.symbol_id, quote),
    {
        insert_quote(&mut self.map, quote.symbol_id, (quote.bid, quote.ask, quote.timestamp_ms));
        assert(self@ =~= old(self)@.insert(quote.symbol_id, quote));
    }

    /// The quotes, each once. The order is left open.
    pub fn list(&self) -> (out: Vec<Quote>)
        ensures
            forall|i: int, j: int|
                0 <= i < j < out@.len() ==> (#[trigger] out@[i]).symbol_id != (
                #[trigger] out@[j]).symbol_id,
            forall|i: int|
                0 <= i < out@.len() ==> self@.contains_key((#[trigger] out@[i]).symbol_id)
                    && self@[out@[i].symbol_id] == out@[i],
            forall|id: i64| #[trigger]
                self@.contains_key(id) ==> exists|i: int|
                    0 <= i < out@.len() && (#[trigger] out@[i]).symbol_id == id,
    {
        let rows = list_quotes(&self.map);
        let mut out: Vec<Quote> = Vec::new();
        for k in 0..rows.len()
            invariant
                out@.len() == k,
                forall|i: int|
                    0 <= i < k ==> #[trigger] out@[i] == quote_of(rows@[i].0, rows@[i].1),
        {
            let (id, row) = rows[k];
            out.push(Quote { symbol_id: id, bid: row.0, ask: row.1, timestamp_ms: row.2 });
        }
        assert forall|i: int, j: int| 0 <= i < j < out@.len() implies (
        #[trigger] out@[i]).symbol_id != (#[trigger] out@[j]).symbol_id by {
            assert(rows@[i].0 != rows@[j].0);
        }
        assert forall|i: int| 0 <= i < out@.len() implies self@.contains_key(
            (#[trigger] out@[i]).symbol_id,
        ) && self@[out@[i].symbol_id] == out@[i] by {
            assert(quote_entries(self.map).contains_key(rows@[i].0));
        }
        assert forall|id: i64| #[trigger] self@.contains_key(id) implies exists|i: int|
            0 <= i < out@.len() && (#[trigger] out@[i]).symbol_id == id by {
            assert(quote_entries(self.map).contains_key(id));
            let i = choose|i: int| 0 <= i < rows@.len() && (#[trigger] rows@[i]).0 == id;
            assert(out@[i].symbol_id == id);
        }
        out
    }
}

// ----------------------------------------------------------------- the state

/// What the bot knows.
pub struct AppState {
    pub account_id: i64,
    /// One of the status numbers.
    pub status: u8,
    /// Unix milliseconds; zero before the first heartbeat.
    pub last_heartbeat_at: i64,
    /// Open positions.
    pub positions: Vec<Position>,
    /// Pending orders.
    pub orders: Vec<Order>,
    /// Closed trades, oldest first.
    pub trades: VecDeque<Trade>,
    /// The account, once the broker has told.
    pub account: Option<Account>,
    pub quotes: QuoteBook,
    pub symbols: SymbolCatalog,
}

pub struct StateView {
    pub account_id: i64,
    pub status: u8,
    pub last_heartbeat_at: i64,
    pub positions: Seq<Position>,
    pub orders: Seq<Order>,
    pub trades: Seq<dto::TradeView>,
    pub account: Option<dto::AccountView>,
    pub quotes: Map<i64, Quote>,
    pub symbols: symbols::CatalogView,
}

impl AppState {
    pub open spec fn view(&self) -> StateView {
        StateView {
            account_id: self.account_id,
            status: self.status,
            last_heartbeat_at: self.last_heartbeat_at,
            positions: self.positions@,
            orders: self.orders@,
            trades: dto::trade_views(self.trades@),
            account: match self.account {
                Some(a) => Some(a@),
                None => None,
            },
            quotes: self.quotes@,
            symbols: self.symbols@,
        }
    }

    /// A bot that is not connected and knows nothing yet.
    pub fn new(account_id: i64) -> (s: Self)
        ensures
            s@.account_id == account_id,
            s@.status == STATUS_DISCONNECTED,
            s@.last_heartbeat_at == 0,
            s@.positions == Seq::<Position>::empty(),
            s@.orders == Seq::<Order>::empty(),
            s@.trades == Seq::<dto::TradeView>::empty(),
            s@.account is None,
            s@.quotes == Map::<i64, Quote>::empty(),
            s@.symbols == symbols::CatalogView::empty(),
    {
        let s = AppState {
            account_id,
            status: STATUS_DISCONNECTED,
            last_heartbeat_at: 0,
            positions: Vec::new(),
            orders: Vec::new(),
            trades: VecDeque::new(),
            account: None,
            quotes: QuoteBook::new(),
            symbols: SymbolCatalog::new(),
        };
        assert(s@.trades =~= Seq::empty());
        s
    }

    pub fn status(&self) -> (r: u8)
        ensures
            r == self@.status,
    {
        self.status
    }

    pub fn set_status(&mut self, status: u8)
        ensures
            final(self)@ == (StateView { status, ..old(self)@ }),
    {
        self.status = status;
    }

    /// When the last heartbeat was sent, in Unix milliseconds; zero before
    /// the first one.
    pub fn last_heartbeat_at(&self) -> (r: i64)
        ensures
            r == self@.last_heartbeat_at,
    {
        self.last_heartbeat_at
    }

    /// Notes that a heartbeat was sent at the given time.
    pub fn mark_heartbeat_at(&mut self, now_ms: i64)
        ensures
            final(self)@ == (StateView { last_heartbeat_at: now_ms, ..old(self)@ }),
    {
        self.last_heartbeat_at = now_ms;
    }

    /// Notes that a heartbeat is sent now, and gives the time. The clock is
    /// read by [`dto::now_unix_ms`]; where the time is at hand,
    /// [`AppState::mark_heartbeat_at`] takes it.
    pub fn mark_heartbeat(&mut self) -> (now_ms: i64)
        ensures
            final(self)@ == (StateView { last_heartbeat_at: now_ms, ..old(self)@ }),
    {
        let now_ms = now_unix_ms();
        self.mark_heartbeat_at(now_ms);
        now_ms
    }
}

} // verus!
