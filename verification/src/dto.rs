//! The values that the API serves and takes: string ids, symbol names instead
//! of symbol ids, and RFC 3339 timestamps. They are made from the bot's state
//! with the help of the symbol catalog.

use chrono::{DateTime, SecondsFormat, TimeZone, Utc};
use vstd::prelude::*;

use crate::state;
use crate::symbols;
use crate::symbols::{SymbolCatalog, SymbolMeta};
use crate::text;
use crate::text::{concat2, i64_text, same_text};
use crate::units::{Double, Money};

verus! {

// -------------------------------------------------------------------- time

/// The first instant that has a calendar date, in Unix milliseconds.
pub const MIN_UTC_MS: i64 = -8_334_601_228_800_000;

/// The last instant that has a calendar date, in Unix milliseconds.
pub const MAX_UTC_MS: i64 = 8_210_266_876_799_999;

/// The RFC 3339 text, to the second and with a trailing `Z`, of an instant
/// given in Unix milliseconds.
pub uninterp spec fn utc_rfc3339(ms: i64) -> Seq<char>;

/// The first instant of the year 10000, in Unix milliseconds.
pub const YEAR_10000_MS: i64 = 253_402_300_800_000;

/// Whether the instant has a calendar date.
pub open spec fn has_date(ms: i64) -> bool {
    MIN_UTC_MS <= ms <= MAX_UTC_MS
}

/// The RFC 3339 text of an instant. An instant without a calendar date reads
/// as the Unix epoch.
pub open spec fn rfc3339_text(ms: i64) -> Seq<char> {
    if has_date(ms) {
        utc_rfc3339(ms)
    } else {
        utc_rfc3339(0)
    }
}

/// `Utc::now` reads the system clock, `DateTime::timestamp_millis` gives the
/// Unix milliseconds of the instant. Nothing is claimed of the value. It panics
/// where the system clock stands before the Unix epoch.
#[verifier::external_body]
pub fn now_unix_ms() -> (ms: i64) {
    Utc::now().timestamp_millis()
}

/// `TimeZone::timestamp_millis_opt` for UTC finds the date of the instant
/// where its year lies between -262143 and 262142, and finds no other instant
/// than the one asked for.
#[verifier::external_body]
fn utc_instant(ms: i64) -> (r: Option<i64>)
    ensures
        has_date(ms) ==> r == Some(ms),
        !has_date(ms) ==> r is None,
{
    match Utc.timestamp_millis_opt(ms).single() {
        Some(instant) => Some(instant.timestamp_millis()),
        None => None,
    }
}

/// `DateTime::to_rfc3339_opts`, with second precision and `Z` for UTC. The
/// text ends with `Z`, and the milliseconds within the second do not show.
/// Between the Unix epoch and the year 10000 each part of the date and the
/// time has a fixed number of digits, so that the text has twenty characters
/// and a later second reads as a later text.
#[verifier::external_body]
fn utc_to_rfc3339(ms: i64) -> (r: String)
    requires
        has_date(ms),
    ensures
        r@ == utc_rfc3339(ms),
        forall|other: i64|
            has_date(other) && other / 1000 == ms / 1000 ==> r@ == #[trigger] utc_rfc3339(other),
        r@.len() > 0 && r@.last() == 'Z',
        0 <= ms < YEAR_10000_MS ==> r@.len() == 20,
        forall|later: i64|
            0 <= ms < later < YEAR_10000_MS && ms / 1000 < later / 1000 ==> text::precedes(
                r@,
                #[trigger] utc_rfc3339(later),
            ),
{
    DateTime::<Utc>::from_timestamp_millis(ms).unwrap().to_rfc3339_opts(SecondsFormat::Secs, true)
}

/// What is known of the text of an instant: it ends with `Z`, it is the same
/// throughout the second, and from the Unix epoch to the year 10000 it has
/// twenty characters and comes before the text of every later second.
pub open spec fn is_second_text(ms: i64, t: Seq<char>) -> bool {
    &&& t.len() > 0 && t.last() == 'Z'
    &&& has_date(ms) ==> t == utc_rfc3339((ms - ms % 1000) as i64)
    &&& forall|other: i64|
        has_date(ms) && has_date(other) && other / 1000 == ms / 1000 ==> t
            == #[trigger] rfc3339_text(other)
    &&& 0 <= ms < YEAR_10000_MS ==> t.len() == 20
    &&& forall|later: i64|
        0 <= ms < later < YEAR_10000_MS && ms / 1000 < later / 1000 ==> text::precedes(
            t,
            #[trigger] rfc3339_text(later),
        )
}

/// Formats an instant, or the Unix epoch where there is none.
pub fn format_ms_rfc3339(ms: Option<i64>) -> (r: String)
    ensures
        r@ == rfc3339_text(ms.unwrap_or(0)),
        is_second_text(ms.unwrap_or(0), r@),
{
    let ts = ms.unwrap_or(0);
    match utc_instant(ts) {
        Some(instant) => utc_to_rfc3339(instant),
        None => utc_to_rfc3339(0),
    }
}

/// Formats an instant in Unix milliseconds as RFC 3339, in UTC, to the second
/// and with a trailing `Z`.
pub fn rfc3339_from_ms(ms: i64) -> (r: String)
    ensures
        r@ == rfc3339_text(ms),
        is_second_text(ms, r@),
{
    format_ms_rfc3339(Some(ms))
}

/// The texts of two instants between the Unix epoch and the year 10000 have
/// twenty characters each. They are in the order of the instants, and equal
/// exactly within a second.
pub proof fn law_times_are_in_order(a: i64, b: i64, text_a: Seq<char>, text_b: Seq<char>)
    requires
        0 <= a <= b < YEAR_10000_MS,
        text_a == rfc3339_text(a) && is_second_text(a, text_a),
        text_b == rfc3339_text(b) && is_second_text(b, text_b),
    ensures
        text_a.len() == 20 && text_a.last() == 'Z',
        text_b.len() == 20 && text_b.last() == 'Z',
        text_a == text_b || text::precedes(text_a, text_b),
        !text::precedes(text_b, text_a),
        text_a == text_b <==> a / 1000 == b / 1000,
{
    text::lemma_precedes_irreflexive(text_a);
    if a / 1000 < b / 1000 {
        assert(text::precedes(text_a, text_b));
        if text::precedes(text_b, text_a) {
            text::lemma_precedes_transitive(text_a, text_b, text_a);
        }
    }
}

// ------------------------------------------------------------------- enums

#[derive(Clone, Copy, Debug, PartialEq, Eq, Structural)]
pub enum ConnectionState {
    Disconnected,
    Connecting,
    Connected,
    Authenticated,
}

impl ConnectionState {
    pub open spec fn of_raw(s: u8) -> ConnectionState {
        if s == state::STATUS_AUTHENTICATED {
            ConnectionState::Authenticated
        } else if s == state::STATUS_CONNECTED {
            ConnectionState::Connected
        } else if s == state::STATUS_CONNECTING {
            ConnectionState::Connecting
        } else {
            ConnectionState::Disconnected
        }
    }

    /// The state behind a status number. An unknown number is no connection.
    pub fn from_raw(s: u8) -> (r: Self)
        ensures
            r == ConnectionState::of_raw(s),
    {
        if s == state::STATUS_AUTHENTICATED {
            ConnectionState::Authenticated
        } else if s == state::STATUS_CONNECTED {
            ConnectionState::Connected
        } else if s == state::STATUS_CONNECTING {
            ConnectionState::Connecting
        } else {
            ConnectionState::Disconnected
        }
    }
}

#[derive(Clone, Copy, Debug, PartialEq, Eq, Structural)]
pub enum Side {
    Buy,
    Sell,
}

impl Side {
    pub open spec fn of_text(s: Seq<char>) -> Side {
        if s == "SELL"@ {
            Side::Sell
        } else {
            Side::Buy
        }
    }

    pub open spec fn text(self) -> Seq<char> {
        match self {
            Side::Buy => "BUY"@,
            Side::Sell => "SELL"@,
        }
    }

    /// The side behind the internal name. Anything but `SELL` is a buy.
    pub fn from_internal(s: &str) -> (r: Self)
        ensures
            r == Side::of_text(s@),
    {
        if same_text(s, "SELL") {
            Side::Sell
        } else {
            Side::Buy
        }
    }

    /// The internal name of the side.
    pub fn as_internal(&self) -> (r: &'static str)
        ensures
            r@ == self.text(),
    {
        match self {
            Side::Buy => "BUY",
            Side::Sell => "SELL",
        }
    }
}

#[derive(Clone, Copy, Debug, PartialEq, Eq, Structural)]
pub enum OrderKind {
    Market,
    Limit,
    Stop,
}

impl OrderKind {
    pub open spec fn of_text(s: Seq<char>) -> OrderKind {
        if s == "LIMIT"@ {
            OrderKind::Limit
        } else if s == "STOP"@ || s == "STOP_LIMIT"@ {
            OrderKind::Stop
        } else {
            OrderKind::Market
        }
    }

    pub open spec fn text(self) -> Seq<char> {
        match self {
            OrderKind::Market => "MARKET"@,
            OrderKind::Limit => "LIMIT"@,
            OrderKind::Stop => "STOP"@,
        }
    }

    /// The kind behind the internal name. A stop-limit order counts as a stop
    /// order, an unknown name as a market order.
    pub fn from_internal(s: &str) -> (r: Self)
        ensures
            r == OrderKind::of_text(s@),
    {
        if same_text(s, "LIMIT") {
            OrderKind::Limit
        } else if same_text(s, "STOP") || same_text(s, "STOP_LIMIT") {
            OrderKind::Stop
        } else {
            OrderKind::Market
        }
    }

    /// The internal name of the kind.
    pub fn as_internal(&self) -> (r: &'static str)
        ensures
            r@ == self.text(),
    {
        match self {
            OrderKind::Market => "MARKET",
            OrderKind::Limit => "LIMIT",
            OrderKind::Stop => "STOP",
        }
    }
}

#[derive(Clone, Copy, Debug, PartialEq, Eq, Structural)]
pub enum OrderStatus {
    Pending,
    Filled,
    Cancelled,
    Rejected,
}

impl OrderStatus {
    pub open spec fn of_text(s: Seq<char>) -> OrderStatus {
        if s == "FILLED"@ {
            OrderStatus::Filled
        } else if s == "CANCELLED"@ {
            OrderStatus::Cancelled
        } else if s == "REJECTED"@ || s == "EXPIRED"@ {
            OrderStatus::Rejected
        } else {
            OrderStatus::Pending
        }
    }

    pub open spec fn text(self) -> Seq<char> {
        match self {
            OrderStatus::Pending => "pending"@,
            OrderStatus::Filled => "filled"@,
            OrderStatus::Cancelled => "cancelled"@,
            OrderStatus::Rejected => "rejected"@,
        }
    }

    /// The status behind the internal name. An expired order counts as
    /// rejected, an unknown name as pending.
    pub fn from_internal(s: &str) -> (r: Self)
        ensures
            r == OrderStatus::of_text(s@),
    {
        if same_text(s, "FILLED") {
            OrderStatus::Filled
        } else if same_text(s, "CANCELLED") {
            OrderStatus::Cancelled
        } else if same_text(s, "REJECTED") || same_text(s, "EXPIRED") {
            OrderStatus::Rejected
        } else {
            OrderStatus::Pending
        }
    }

    /// The name of the status on the wire.
    pub fn as_str(&self) -> (r: &'static str)
        ensures
            r@ == self.text(),
    {
        match self {
            OrderStatus::Pending => "pending",
            OrderStatus::Filled => "filled",
            OrderStatus::Cancelled => "cancelled",
            OrderStatus::Rejected => "rejected",
        }
    }
}

#[derive(Clone, Copy, Debug, PartialEq, Eq, Structural)]
pub enum StrategyState {
    Stopped,
    Running,
    Paused,
}

#[derive(Clone, Copy, Debug, PartialEq, Eq, Structural)]
pub enum LogLevel {
    Trace,
    Debug,
    Info,
    Warn,
    Error,
}

/// A side survives the way through its internal name.
pub proof fn law_side_round_trip(side: Side)
    ensures
        Side::of_text(side.text()) == side,
{
    reveal_strlit("BUY");
    reveal_strlit("SELL");
    assert("BUY"@.len() != "SELL"@.len());
}

/// An order kind survives the way through its internal name.
pub proof fn law_order_kind_round_trip(kind: OrderKind)
    ensures
        OrderKind::of_text(kind.text()) == kind,
{
    reveal_strlit("MARKET");
    reveal_strlit("LIMIT");
    reveal_strlit("STOP");
    reveal_strlit("STOP_LIMIT");
    assert("MARKET"@.len() == 6 && "LIMIT"@.len() == 5 && "STOP"@.len() == 4 && "STOP_LIMIT"@.len()
        == 10);
}

// ------------------------------------------------------------ served values

/// The account as a whole.
#[derive(Debug)]
pub struct Account {
    pub id: String,
    pub balance: Money,
    pub equity: Money,
    pub margin: Money,
    pub free_margin: Money,
    pub currency: String,
}

pub struct AccountView {
    pub id: Seq<char>,
    pub balance: Money,
    pub equity: Money,
    pub margin: Money,
    pub free_margin: Money,
    pub currency: Seq<char>,
}

impl Account {
    pub open spec fn view(&self) -> AccountView {
        AccountView {
            id: self.id@,
            balance: self.balance,
            equity: self.equity,
            margin: self.margin,
            free_margin: self.free_margin,
            currency: self.currency@,
        }
    }
}

impl Clone for Account {
    fn clone(&self) -> (r: Self)
        ensures
            r@ == self@,
    {
        Account {
            id: self.id.clone(),
            balance: self.balance,
            equity: self.equity,
            margin: self.margin,
            free_margin: self.free_margin,
            currency: self.currency.clone(),
        }
    }
}

/// A closed trade.
#[derive(Debug)]
pub struct Trade {
    pub id: String,
    pub position_id: String,
    pub symbol: String,
    pub side: Side,
    pub volume: i64,
    pub open_price: Double,
    pub close_price: Double,
    pub pnl: Money,
    pub opened_at: String,
    pub closed_at: String,
}

pub struct TradeView {
    pub id: Seq<char>,
    pub position_id: Seq<char>,
    pub symbol: Seq<char>,
    pub side: Side,
    pub volume: i64,
    pub open_price: Double,
    pub close_price: Double,
    pub pnl: Money,
    pub opened_at: Seq<char>,
    pub closed_at: Seq<char>,
}

impl Trade {
    pub open spec fn view(&self) -> TradeView {
        TradeView {
            id: self.id@,
            position_id: self.position_id@,
            symbol: self.symbol@,
            side: self.side,
            volume: self.volume,
            open_price: self.open_price,
            close_price: self.close_price,
            pnl: self.pnl,
            opened_at: self.opened_at@,
            closed_at: self.closed_at@,
        }
    }
}

impl Clone for Trade {
    fn clone(&self) -> (r: Self)
        ensures
            r@ == self@,
    {
        Trade {
            id: self.id.clone(),
            position_id: self.position_id.clone(),
            symbol: self.symbol.clone(),
            side: self.side,
            volume: self.volume,
            open_price: self.open_price,
            close_price: self.close_price,
            pnl: self.pnl,
            opened_at: self.opened_at.clone(),
            closed_at: self.closed_at.clone(),
        }
    }
}

/// What a list of trades reads as.
pub open spec fn trade_views(trades: Seq<Trade>) -> Seq<TradeView> {
    Seq::new(trades.len(), |i: int| trades[i]@)
}

/// A value in a set of named fields.
#[derive(Debug)]
pub enum FieldValue {
    Text(String),
    Int(i64),
    UInt(u64),
    Bool(bool),
    Real(Double),
}

pub enum FieldView {
    Text(Seq<char>),
    Int(i64),
    UInt(u64),
    Bool(bool),
    Real(Double),
}

impl FieldValue {
    pub open spec fn view(&self) -> FieldView {
        match self {
            FieldValue::Text(t) => FieldView::Text(t@),
            FieldValue::Int(i) => FieldView::Int(*i),
            FieldValue::UInt(u) => FieldView::UInt(*u),
            FieldValue::Bool(b) => FieldView::Bool(*b),
            FieldValue::Real(d) => FieldView::Real(*d),
        }
    }
}

impl Clone for FieldValue {
    fn clone(&self) -> (r: Self)
        ensures
            r@ == self@,
    {
        match self {
            FieldValue::Text(t) => FieldValue::Text(t.clone()),
            FieldValue::Int(i) => FieldValue::Int(*i),
            FieldValue::UInt(u) => FieldValue::UInt(*u),
            FieldValue::Bool(b) => FieldValue::Bool(*b),
            FieldValue::Real(d) => FieldValue::Real(*d),
        }
    }
}

fn clone_fields(fields: &Vec<(String, FieldValue)>) -> (out: Vec<(String, FieldValue)>)
    ensures
        field_views(out@) == field_views(fields@),
{
    let mut out: Vec<(String, FieldValue)> = Vec::new();
    for i in 0..fields.len()
        invariant
            out@.len() == i,
            forall|k: int|
                0 <= k < i ==> (#[trigger] out@[k]).0@ == fields@[k].0@ && out@[k].1@
                    == fields@[k].1@,
    {
        let name = fields[i].0.clone();
        let value = fields[i].1.clone();
        out.push((name, value));
    }
    assert(field_views(out@) =~= field_views(fields@));
    out
}

/// What a list of named fields reads as.
pub open spec fn field_views(fields: Seq<(String, FieldValue)>) -> Seq<(Seq<char>, FieldView)> {
    Seq::new(fields.len(), |i: int| (fields[i].0@, fields[i].1@))
}

/// The state of the trading strategy.
#[derive(Debug)]
pub struct StrategyStatus {
    pub name: String,
    pub state: StrategyState,
    pub uptime_seconds: Option<u64>,
    pub params: Vec<(String, FieldValue)>,
}

impl Default for StrategyStatus {
    /// No strategy: stopped, without parameters.
    fn default() -> (r: Self)
        ensures
            r.name@ == "none"@,
            r.state == StrategyState::Stopped,
            r.uptime_seconds is None,
            r.params@.len() == 0,
    {
        StrategyStatus {
            name: "none".to_owned(),
            state: StrategyState::Stopped,
            uptime_seconds: None,
            params: Vec::new(),
        }
    }
}

/// The envelope of an error: a code for programs and a message for people.
#[derive(Debug)]
pub struct ApiErrorBody {
    pub error: ApiErrorDetail,
}

#[derive(Debug)]
pub struct ApiErrorDetail {
    pub code: String,
    pub message: String,
    pub details: Option<Vec<(String, FieldValue)>>,
}

impl ApiErrorBody {
    /// An error without details.
    pub fn new(code: &str, message: &str) -> (r: Self)
        ensures
            r.error.code@ == code@,
            r.error.message@ == message@,
            r.error.details is None,
    {
        ApiErrorBody {
            error: ApiErrorDetail {
                code: code.to_owned(),
                message: message.to_owned(),
                details: None,
            },
        }
    }
}

/// How the bot is doing.
#[derive(Debug)]
pub struct Status {
    pub connection: ConnectionState,
    pub uptime_seconds: u64,
    pub account_id: Option<String>,
    pub last_heartbeat_at: Option<String>,
}

pub struct StatusView {
    pub connection: ConnectionState,
    pub uptime_seconds: u64,
    pub account_id: Option<Seq<char>>,
    pub last_heartbeat_at: Option<Seq<char>>,
}

/// The status of the bot after `uptime_seconds` of running.
pub open spec fn status_dto(s: state::StateView, uptime_seconds: u64) -> StatusView {
    StatusView {
        connection: ConnectionState::of_raw(s.status),
        uptime_seconds,
        account_id: if s.account_id == 0 {
            None
        } else {
            Some(text::int_text(s.account_id as int))
        },
        last_heartbeat_at: if s.last_heartbeat_at > 0 {
            Some(rfc3339_text(s.last_heartbeat_at))
        } else {
            None
        },
    }
}

impl Status {
    pub open spec fn view(&self) -> StatusView {
        StatusView {
            connection: self.connection,
            uptime_seconds: self.uptime_seconds,
            account_id: text::opt_text(self.account_id),
            last_heartbeat_at: text::opt_text(self.last_heartbeat_at),
        }
    }

    /// The status of the bot after `uptime_seconds` of running. An account id
    /// of zero is no account, and a heartbeat at or before the Unix epoch is
    /// no heartbeat.
    pub fn from_state(s: &state::AppState, uptime_seconds: u64) -> (r: Self)
        ensures
            r@ == status_dto(s@, uptime_seconds),
    {
        let last_hb_ms = s.last_heartbeat_at();
        Status {
            connection: ConnectionState::from_raw(s.status()),
            uptime_seconds,
            account_id: if s.account_id == 0 {
                None
            } else {
                Some(i64_text(s.account_id))
            },
            last_heartbeat_at: if last_hb_ms > 0 {
                Some(rfc3339_from_ms(last_hb_ms))
            } else {
                None
            },
        }
    }
}

/// Quotes by symbol name. No name occurs twice.
pub type QuotesMap = Vec<(String, Quote)>;

/// A quote by symbol name. A price that the broker did not send is zero.
#[derive(Debug)]
pub struct Quote {
    pub symbol: String,
    pub bid: u64,
    pub ask: u64,
    pub time: i64,
}

pub struct QuoteView {
    pub symbol: Seq<char>,
    pub bid: u64,
    pub ask: u64,
    pub time: i64,
}

/// A timestamp that is missing or lies before the epoch is zero.
pub open spec fn tick_time(timestamp_ms: Option<i64>) -> i64 {
    match timestamp_ms {
        Some(ms) => if ms > 0 {
            ms
        } else {
            0
        },
        None => 0,
    }
}

/// The time of a tick in Unix milliseconds; zero where it is missing or lies
/// before the epoch.
pub fn time_of_tick(timestamp_ms: Option<i64>) -> (r: i64)
    ensures
        r == tick_time(timestamp_ms),
{
    match timestamp_ms {
        Some(ms) => if ms > 0 {
            ms
        } else {
            0
        },
        None => 0,
    }
}

/// The served form of a quote.
pub open spec fn quote_dto(q: state::Quote, symbols: symbols::CatalogView) -> QuoteView {
    QuoteView {
        symbol: symbols.name(q.symbol_id),
        bid: q.bid.unwrap_or(0),
        ask: q.ask.unwrap_or(0),
        time: tick_time(q.timestamp_ms),
    }
}

impl Quote {
    pub open spec fn view(&self) -> QuoteView {
        QuoteView { symbol: self.symbol@, bid: self.bid, ask: self.ask, time: self.time }
    }

    pub fn from_state(q: &state::Quote, symbols: &SymbolCatalog) -> (r: Self)
        ensures
            r@ == quote_dto(*q, symbols@),
    {
        Quote {
            symbol: symbols.name(q.symbol_id),
            bid: q.bid.unwrap_or(0),
            ask: q.ask.unwrap_or(0),
            time: time_of_tick(q.timestamp_ms),
        }
    }
}

/// A position by symbol name.
#[derive(Debug)]
pub struct Position {
    pub id: String,
    pub symbol: String,
    pub side: Side,
    pub volume: i64,
    pub open_price: Double,
    pub pnl: Double,
    pub swap: Money,
    pub commission: Money,
    pub opened_at: String,
}

impl Clone for Position {
    fn clone(&self) -> (r: Self)
        ensures
            r@ == self@,
    {
        Position {
            id: self.id.clone(),
            symbol: self.symbol.clone(),
            side: self.side,
            volume: self.volume,
            open_price: self.open_price,
            pnl: self.pnl,
            swap: self.swap,
            commission: self.commission,
            opened_at: self.opened_at.clone(),
        }
    }
}

pub struct PositionView {
    pub id: Seq<char>,
    pub symbol: Seq<char>,
    pub side: Side,
    pub volume: i64,
    pub open_price: Double,
    pub pnl: Double,
    pub swap: Money,
    pub commission: Money,
    pub opened_at: Seq<char>,
}

/// The served form of a position. The profit is left to the reader, who has
/// the ticks: it is zero here.
pub open spec fn position_dto(p: state::Position, symbols: symbols::CatalogView) -> PositionView {
    PositionView {
        id: text::int_text(p.position_id as int),
        symbol: symbols.name(p.symbol_id),
        side: Side::of_text(p.side@),
        volume: p.volume,
        open_price: p.entry_price.unwrap_or(Double::spec_zero()),
        pnl: Double::spec_zero(),
        swap: p.swap,
        commission: p.commission,
        opened_at: rfc3339_text(p.open_timestamp_ms.unwrap_or(0)),
    }
}

impl Position {
    pub open spec fn view(&self) -> PositionView {
        PositionView {
            id: self.id@,
            symbol: self.symbol@,
            side: self.side,
            volume: self.volume,
            open_price: self.open_price,
            pnl: self.pnl,
            swap: self.swap,
            commission: self.commission,
            opened_at: self.opened_at@,
        }
    }

    pub fn from_state(p: &state::Position, symbols: &SymbolCatalog) -> (r: Self)
        ensures
            r@ == position_dto(*p, symbols@),
    {
        Position {
            id: i64_text(p.position_id),
            symbol: symbols.name(p.symbol_id),
            side: Side::from_internal(p.side),
            volume: p.volume,
            open_price: p.entry_price.unwrap_or(Double::zero()),
            pnl: Double::zero(),
            swap: p.swap,
            commission: p.commission,
            opened_at: format_ms_rfc3339(p.open_timestamp_ms),
        }
    }
}

/// An order by symbol name.
#[derive(Debug)]
pub struct Order {
    pub id: String,
    pub symbol: String,
    pub side: Side,
    pub kind: OrderKind,
    pub volume: i64,
    pub price: Option<Double>,
    pub stop_loss: Option<Double>,
    pub take_profit: Option<Double>,
    pub status: OrderStatus,
    pub created_at: String,
}

impl Clone for Order {
    fn clone(&self) -> (r: Self)
        ensures
            r@ == self@,
    {
        Order {
            id: self.id.clone(),
            symbol: self.symbol.clone(),
            side: self.side,
            kind: self.kind,
            volume: self.volume,
            price: self.price,
            stop_loss: self.stop_loss,
            take_profit: self.take_profit,
            status: self.status,
            created_at: self.created_at.clone(),
        }
    }
}

pub struct OrderView {
    pub id: Seq<char>,
    pub symbol: Seq<char>,
    pub side: Side,
    pub kind: OrderKind,
    pub volume: i64,
    pub price: Option<Double>,
    pub stop_loss: Option<Double>,
    pub take_profit: Option<Double>,
    pub status: OrderStatus,
    pub created_at: Seq<char>,
}

/// The served form of an order. It has the one price that belongs to its
/// kind.
pub open spec fn order_dto(o: state::Order, symbols: symbols::CatalogView) -> OrderView {
    let kind = OrderKind::of_text(o.order_type@);
    OrderView {
        id: text::int_text(o.order_id as int),
        symbol: symbols.name(o.symbol_id),
        side: Side::of_text(o.side@),
        kind,
        volume: o.volume,
        price: match kind {
            OrderKind::Limit => o.limit_price,
            OrderKind::Stop => o.stop_price,
            OrderKind::Market => None,
        },
        stop_loss: o.stop_loss,
        take_profit: o.take_profit,
        status: OrderStatus::of_text(o.status@),
        created_at: rfc3339_text(o.created_at_ms.unwrap_or(0)),
    }
}

impl Order {
    pub open spec fn view(&self) -> OrderView {
        OrderView {
            id: self.id@,
            symbol: self.symbol@,
            side: self.side,
            kind: self.kind,
            volume: self.volume,
            price: self.price,
            stop_loss: self.stop_loss,
            take_profit: self.take_profit,
            status: self.status,
            created_at: self.created_at@,
        }
    }

    pub fn from_state(o: &state::Order, symbols: &SymbolCatalog) -> (r: Self)
        ensures
            r@ == order_dto(*o, symbols@),
    {
        let kind = OrderKind::from_internal(o.order_type);
        let price = match kind {
            OrderKind::Limit => o.limit_price,
            OrderKind::Stop => o.stop_price,
            OrderKind::Market => None,
        };
        Order {
            id: i64_text(o.order_id),
            symbol: symbols.name(o.symbol_id),
            side: Side::from_internal(o.side),
            kind,
            volume: o.volume,
            price,
            stop_loss: o.stop_loss,
            take_profit: o.take_profit,
            status: OrderStatus::from_internal(o.status),
            created_at: format_ms_rfc3339(o.created_at_ms),
        }
    }
}

/// The trading metadata of a symbol, by its name.
#[derive(Debug)]
pub struct SymbolInfo {
    pub symbol: String,
    pub meta: SymbolMeta,
}

impl SymbolInfo {
    pub fn from_catalog(name: String, meta: SymbolMeta) -> (r: Self)
        ensures
            r.symbol == name,
            r.meta == meta,
    {
        SymbolInfo { symbol: name, meta }
    }
}

// ------------------------------------------------------------ pushed frames

/// What the bot pushes to its clients.
#[allow(inconsistent_fields)]
#[derive(Debug)]
pub enum WsFrame {
    Tick { symbol: String, bid: u64, ask: u64, time: i64 },
    Execution { order_id: String, status: OrderStatus, detail: Option<String> },
    PositionUpdate { position: Position },
    PositionClosed { position_id: String },
    OrderUpdate { order: Order },
    Status { connection: ConnectionState },
    Heartbeat { at: i64 },
    Log {
        level: LogLevel,
        message: String,
        fields: Option<Vec<(String, FieldValue)>>,
        at: String,
    },
}

#[allow(inconsistent_fields)]
pub enum FrameView {
    Tick { symbol: Seq<char>, bid: u64, ask: u64, time: i64 },
    Execution { order_id: Seq<char>, status: OrderStatus, detail: Option<Seq<char>> },
    PositionUpdate { position: PositionView },
    PositionClosed { position_id: Seq<char> },
    OrderUpdate { order: OrderView },
    Status { connection: ConnectionState },
    Heartbeat { at: i64 },
    Log {
        level: LogLevel,
        message: Seq<char>,
        fields: Option<Seq<(Seq<char>, FieldView)>>,
        at: Seq<char>,
    },
}

impl FrameView {
    /// The name of the kind of frame.
    pub open spec fn kind(self) -> Seq<char> {
        match self {
            FrameView::Tick { .. } => "tick"@,
            FrameView::Execution { .. } => "execution"@,
            FrameView::PositionUpdate { .. } => "position_update"@,
            FrameView::PositionClosed { .. } => "position_closed"@,
            FrameView::OrderUpdate { .. } => "order_update"@,
            FrameView::Status { .. } => "status"@,
            FrameView::Heartbeat { .. } => "heartbeat"@,
            FrameView::Log { .. } => "log"@,
        }
    }
}

impl WsFrame {
    pub open spec fn view(&self) -> FrameView {
        match self {
            WsFrame::Tick { symbol, bid, ask, time } => FrameView::Tick {
                symbol: symbol@,
                bid: *bid,
                ask: *ask,
                time: *time,
            },
            WsFrame::Execution { order_id, status, detail } => FrameView::Execution {
                order_id: order_id@,
                status: *status,
                detail: text::opt_text(*detail),
            },
            WsFrame::PositionUpdate { position } => FrameView::PositionUpdate {
                position: position@,
            },
            WsFrame::PositionClosed { position_id } => FrameView::PositionClosed {
                position_id: position_id@,
            },
            WsFrame::OrderUpdate { order } => FrameView::OrderUpdate { order: order@ },
            WsFrame::Status { connection } => FrameView::Status { connection: *connection },
            WsFrame::Heartbeat { at } => FrameView::Heartbeat { at: *at },
            WsFrame::Log { level, message, fields, at } => FrameView::Log {
                level: *level,
                message: message@,
                fields: match fields {
                    Some(f) => Some(field_views(f@)),
                    None => None,
                },
                at: at@,
            },
        }
    }

    /// The name of the kind of frame: its tag on the wire, and its label in
    /// the metrics.
    pub fn kind_str(&self) -> (r: &'static str)
        ensures
            r@ == self@.kind(),
    {
        match self {
            WsFrame::Tick { .. } => "tick",
            WsFrame::Execution { .. } => "execution",
            WsFrame::PositionUpdate { .. } => "position_update",
            WsFrame::PositionClosed { .. } => "position_closed",
            WsFrame::OrderUpdate { .. } => "order_update",
            WsFrame::Status { .. } => "status",
            WsFrame::Heartbeat { .. } => "heartbeat",
            WsFrame::Log { .. } => "log",
        }
    }
}

impl Clone for WsFrame {
    fn clone(&self) -> (r: Self)
        ensures
            r@ == self@,
    {
        match self {
            WsFrame::Tick { symbol, bid, ask, time } => WsFrame::Tick {
                symbol: symbol.clone(),
                bid: *bid,
                ask: *ask,
                time: *time,
            },
            WsFrame::Execution { order_id, status, detail } => WsFrame::Execution {
                order_id: order_id.clone(),
                status: *status,
                detail: match detail {
                    Some(d) => Some(d.clone()),
                    None => None,
                },
            },
            WsFrame::PositionUpdate { position } => WsFrame::PositionUpdate {
                position: position.clone(),
            },
            WsFrame::PositionClosed { position_id } => WsFrame::PositionClosed {
                position_id: position_id.clone(),
            },
            WsFrame::OrderUpdate { order } => WsFrame::OrderUpdate { order: order.clone() },
            WsFrame::Status { connection } => WsFrame::Status { connection: *connection },
            WsFrame::Heartbeat { at } => WsFrame::Heartbeat { at: *at },
            WsFrame::Log { level, message, fields, at } => WsFrame::Log {
                level: *level,
                message: message.clone(),
                fields: match fields {
                    Some(f) => Some(clone_fields(f)),
                    None => None,
                },
                at: at.clone(),
            },
        }
    }
}

/// What a list of frames reads as.
pub open spec fn frame_views(frames: Seq<WsFrame>) -> Seq<FrameView> {
    Seq::new(frames.len(), |i: int| frames[i]@)
}

// -------------------------------------------------------------- taken values

/// A request to place an order.
#[derive(Debug)]
pub struct PlaceOrderRequest {
    pub symbol: String,
    pub side: Side,
    pub kind: OrderKind,
    pub volume: i64,
    pub price: Option<Double>,
    pub stop_loss: Option<Double>,
    pub take_profit: Option<Double>,
}

pub struct PlaceOrderRequestView {
    pub symbol: Seq<char>,
    pub side: Side,
    pub kind: OrderKind,
    pub volume: i64,
    pub price: Option<Double>,
    pub stop_loss: Option<Double>,
    pub take_profit: Option<Double>,
}

impl PlaceOrderRequestView {
    /// The order parameters for a symbol id. The price goes to the field that
    /// the kind of order has for it; a market order has none.
    pub open spec fn args(self, symbol_id: i64) -> state::PlaceOrderArgsView {
        state::PlaceOrderArgsView {
            symbol_id,
            side: self.side.text(),
            order_type: self.kind.text(),
            volume: self.volume,
            limit_price: if self.kind == OrderKind::Limit {
                self.price
            } else {
                None
            },
            stop_price: if self.kind == OrderKind::Stop {
                self.price
            } else {
                None
            },
            stop_loss: self.stop_loss,
            take_profit: self.take_profit,
        }
    }
}

impl PlaceOrderRequest {
    pub open spec fn view(&self) -> PlaceOrderRequestView {
        PlaceOrderRequestView {
            symbol: self.symbol@,
            side: self.side,
            kind: self.kind,
            volume: self.volume,
            price: self.price,
            stop_loss: self.stop_loss,
            take_profit: self.take_profit,
        }
    }

    /// The order parameters, with the symbol name resolved to its id. A name
    /// that is not in the catalog is an error.
    pub fn into_internal(self, symbols: &SymbolCatalog) -> (r: Result<
        state::PlaceOrderArgs,
        String,
    >)
        ensures
            match symbols@.id(self@.symbol) {
                Some(id) => r matches Ok(args) && args@ == self@.args(id),
                None => r matches Err(message) && message@ == "unknown symbol: "@ + self@.symbol,
            },
    {
        let symbol_id = match symbols.id(self.symbol.as_str()) {
            Some(id) => id,
            None => {
                return Err(concat2("unknown symbol: ", self.symbol.as_str()));
            },
        };
        Ok(
            state::PlaceOrderArgs {
                symbol_id,
                side: self.side.as_internal().to_owned(),
                order_type: self.kind.as_internal().to_owned(),
                volume: self.volume,
                limit_price: if self.kind == OrderKind::Limit {
                    self.price
                } else {
                    None
                },
                stop_price: if self.kind == OrderKind::Stop {
                    self.price
                } else {
                    None
                },
                stop_loss: self.stop_loss,
                take_profit: self.take_profit,
            },
        )
    }
}

// --------------------------------------------------------------------- laws

/// An instant with a calendar date has the text of that date, and one without
/// has the text of the Unix epoch. Dates reach from the year -262143 to the
/// year 262142.
pub proof fn law_text_of_an_instant(ms: i64)
    ensures
        -8_334_601_228_800_000 <= ms <= 8_210_266_876_799_999 ==> rfc3339_text(ms) == utc_rfc3339(
            ms,
        ),
        ms < -8_334_601_228_800_000 || 8_210_266_876_799_999 < ms ==> rfc3339_text(ms)
            == utc_rfc3339(0),
{
}

/// Each state of the connection has one number, and a number that is none of
/// these is no connection. The name on the wire is that of the state.
pub proof fn law_states_of_the_connection(s: u8)
    ensures
        ConnectionState::of_raw(s) == ConnectionState::Connecting <==> s == 1,
        ConnectionState::of_raw(s) == ConnectionState::Connected <==> s == 2,
        ConnectionState::of_raw(s) == ConnectionState::Authenticated <==> s == 3,
        ConnectionState::of_raw(s) == ConnectionState::Disconnected <==> s == 0 || s > 3,
        s == 1 ==> state::status_text(s) == "connecting"@,
        s == 2 ==> state::status_text(s) == "connected"@,
        s == 3 ==> state::status_text(s) == "authenticated"@,
        s == 0 || s > 3 ==> state::status_text(s) == "disconnected"@,
{
}

/// The served status is that of the connection, with the time of running as
/// given, the account unless it is none, and the last heartbeat unless there
/// was none.
pub proof fn law_status_is_served(s: state::StateView, uptime_seconds: u64)
    ensures
        ({
            let served = status_dto(s, uptime_seconds);
            &&& served.connection == ConnectionState::Authenticated <==> s.status == 3
            &&& served.connection == ConnectionState::Connected <==> s.status == 2
            &&& served.connection == ConnectionState::Connecting <==> s.status == 1
            &&& served.uptime_seconds == uptime_seconds
            &&& s.account_id == 0 <==> served.account_id is None
            &&& served.account_id matches Some(id) ==> text::text_i64(id) == Some(s.account_id)
            &&& s.last_heartbeat_at <= 0 <==> served.last_heartbeat_at is None
            &&& served.last_heartbeat_at matches Some(at) ==> at == rfc3339_text(
                s.last_heartbeat_at,
            )
        }),
{
    text::law_decimal_round_trip(s.account_id);
}

/// The names of the sides, the kinds and the statuses, and what they read
/// back as.
pub proof fn law_names_of_an_order(side: Side, kind: OrderKind, status: OrderStatus)
    ensures
        side == Side::Buy <==> side.text() == "BUY"@,
        side == Side::Sell <==> side.text() == "SELL"@,
        kind == OrderKind::Market <==> kind.text() == "MARKET"@,
        kind == OrderKind::Limit <==> kind.text() == "LIMIT"@,
        kind == OrderKind::Stop <==> kind.text() == "STOP"@,
        status == OrderStatus::Pending <==> status.text() == "pending"@,
        status == OrderStatus::Filled <==> status.text() == "filled"@,
        status == OrderStatus::Cancelled <==> status.text() == "cancelled"@,
        status == OrderStatus::Rejected <==> status.text() == "rejected"@,
{
    reveal_strlit("BUY");
    reveal_strlit("SELL");
    reveal_strlit("MARKET");
    reveal_strlit("LIMIT");
    reveal_strlit("STOP");
    reveal_strlit("pending");
    reveal_strlit("filled");
    reveal_strlit("cancelled");
    reveal_strlit("rejected");
    assert("BUY"@.len() == 3 && "SELL"@.len() == 4);
    assert("MARKET"@.len() == 6 && "LIMIT"@.len() == 5 && "STOP"@.len() == 4);
    assert("pending"@.len() == 7 && "filled"@.len() == 6 && "cancelled"@.len() == 9
        && "rejected"@.len() == 8);
}

/// A name reads as the side, kind or status that it names. Any other name is
/// a buy, a market order, and pending.
pub proof fn law_what_names_read_as(name: Seq<char>)
    ensures
        Side::of_text(name) == Side::Sell <==> name == "SELL"@,
        OrderKind::of_text(name) == OrderKind::Limit <==> name == "LIMIT"@,
        OrderKind::of_text(name) == OrderKind::Stop <==> name == "STOP"@ || name == "STOP_LIMIT"@,
        OrderStatus::of_text(name) == OrderStatus::Filled <==> name == "FILLED"@,
        OrderStatus::of_text(name) == OrderStatus::Cancelled <==> name == "CANCELLED"@,
        OrderStatus::of_text(name) == OrderStatus::Rejected <==> name == "REJECTED"@ || name
            == "EXPIRED"@,
{
    reveal_strlit("LIMIT");
    reveal_strlit("STOP");
    reveal_strlit("STOP_LIMIT");
    reveal_strlit("FILLED");
    reveal_strlit("CANCELLED");
    reveal_strlit("REJECTED");
    reveal_strlit("EXPIRED");
    assert("LIMIT"@.len() == 5 && "STOP"@.len() == 4 && "STOP_LIMIT"@.len() == 10);
    assert("FILLED"@.len() == 6 && "CANCELLED"@.len() == 9 && "REJECTED"@.len() == 8
        && "EXPIRED"@.len() == 7);
}

/// Each kind of frame has a name of its own.
pub proof fn law_kinds_of_frames(frame: FrameView)
    ensures
        frame is Tick <==> frame.kind() == "tick"@,
        frame is Execution <==> frame.kind() == "execution"@,
        frame is PositionUpdate <==> frame.kind() == "position_update"@,
        frame is PositionClosed <==> frame.kind() == "position_closed"@,
        frame is OrderUpdate <==> frame.kind() == "order_update"@,
        frame is Status <==> frame.kind() == "status"@,
        frame is Heartbeat <==> frame.kind() == "heartbeat"@,
        frame is Log <==> frame.kind() == "log"@,
{
    reveal_strlit("tick");
    reveal_strlit("execution");
    reveal_strlit("position_update");
    reveal_strlit("position_closed");
    reveal_strlit("order_update");
    reveal_strlit("status");
    reveal_strlit("heartbeat");
    reveal_strlit("log");
    assert("tick"@.len() == 4 && "execution"@.len() == 9 && "position_update"@.len() == 15
        && "position_closed"@.len() == 15 && "order_update"@.len() == 12 && "status"@.len() == 6
        && "heartbeat"@.len() == 9 && "log"@.len() == 3);
    assert("execution"@[0] == 'e' && "heartbeat"@[0] == 'h');
    assert("position_update"@[9] == 'u' && "position_closed"@[9] == 'c');
}

} // verus!
