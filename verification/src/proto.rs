//! The messages exchanged with the broker, as plain values: the fields that
//! the bot reads or sets, and the payload type numbers that tell them apart.

use vstd::prelude::*;

use crate::units::Double;

verus! {

// -------------------------------------------------------- payload type numbers

pub const ERROR_RES: u32 = 50;

pub const HEARTBEAT_EVENT: u32 = 51;

pub const OA_APPLICATION_AUTH_REQ: u32 = 2100;

pub const OA_APPLICATION_AUTH_RES: u32 = 2101;

pub const OA_ACCOUNT_AUTH_REQ: u32 = 2102;

pub const OA_ACCOUNT_AUTH_RES: u32 = 2103;

pub const OA_NEW_ORDER_REQ: u32 = 2106;

pub const OA_CANCEL_ORDER_REQ: u32 = 2108;

pub const OA_CLOSE_POSITION_REQ: u32 = 2111;

pub const OA_ASSET_LIST_REQ: u32 = 2112;

pub const OA_ASSET_LIST_RES: u32 = 2113;

pub const OA_SYMBOLS_LIST_REQ: u32 = 2114;

pub const OA_SYMBOLS_LIST_RES: u32 = 2115;

pub const OA_TRADER_REQ: u32 = 2121;

pub const OA_TRADER_RES: u32 = 2122;

pub const OA_RECONCILE_REQ: u32 = 2124;

pub const OA_RECONCILE_RES: u32 = 2125;

pub const OA_EXECUTION_EVENT: u32 = 2126;

pub const OA_SUBSCRIBE_SPOTS_REQ: u32 = 2127;

pub const OA_SUBSCRIBE_SPOTS_RES: u32 = 2128;

pub const OA_SPOT_EVENT: u32 = 2131;

pub const OA_ORDER_ERROR_EVENT: u32 = 2132;

pub const OA_ERROR_RES: u32 = 2142;

pub const OA_REFRESH_TOKEN_REQ: u32 = 2173;

pub const OA_REFRESH_TOKEN_RES: u32 = 2174;

// ---------------------------------------------------------------- field values

pub const TRADE_SIDE_BUY: i32 = 1;

pub const TRADE_SIDE_SELL: i32 = 2;

pub const ORDER_TYPE_MARKET: i32 = 1;

pub const ORDER_TYPE_LIMIT: i32 = 2;

pub const ORDER_TYPE_STOP: i32 = 3;

pub const ORDER_TYPE_STOP_LIMIT: i32 = 6;

pub const POSITION_STATUS_CLOSED: i32 = 2;

pub const ORDER_STATUS_ACCEPTED: i32 = 1;

pub const ORDER_STATUS_FILLED: i32 = 2;

pub const ORDER_STATUS_REJECTED: i32 = 3;

pub const ORDER_STATUS_EXPIRED: i32 = 4;

pub const ORDER_STATUS_CANCELLED: i32 = 5;

// ------------------------------------------------------------ inbound messages

#[derive(Clone, Copy, Debug, PartialEq, Eq, Structural)]
pub struct TradeData {
    pub symbol_id: i64,
    pub volume: i64,
    pub trade_side: i32,
    pub open_timestamp: Option<i64>,
}

#[derive(Clone, Copy, Debug, PartialEq, Eq, Structural)]
pub struct ProtoPosition {
    pub position_id: i64,
    pub trade_data: TradeData,
    pub position_status: i32,
    pub swap: i64,
    pub price: Option<Double>,
    pub stop_loss: Option<Double>,
    pub take_profit: Option<Double>,
    pub commission: Option<i64>,
    pub money_digits: Option<u32>,
}

#[derive(Clone, Copy, Debug, PartialEq, Eq, Structural)]
pub struct ProtoOrder {
    pub order_id: i64,
    pub trade_data: TradeData,
    pub order_type: i32,
    pub order_status: i32,
    pub limit_price: Option<Double>,
    pub stop_price: Option<Double>,
    pub stop_loss: Option<Double>,
    pub take_profit: Option<Double>,
}

#[derive(Clone, Copy, Debug, PartialEq, Eq, Structural)]
pub struct ClosePositionDetail {
    pub entry_price: Double,
    pub gross_profit: i64,
    pub closed_volume: Option<i64>,
    pub money_digits: Option<u32>,
}

#[derive(Clone, Copy, Debug, PartialEq, Eq, Structural)]
pub struct Deal {
    pub deal_id: i64,
    pub position_id: i64,
    pub filled_volume: i64,
    pub symbol_id: i64,
    pub execution_timestamp: i64,
    pub execution_price: Option<Double>,
    pub trade_side: i32,
    pub close_position_detail: Option<ClosePositionDetail>,
}

#[derive(Clone, Copy, Debug, PartialEq, Eq, Structural)]
pub struct ExecutionEvent {
    pub position: Option<ProtoPosition>,
    pub order: Option<ProtoOrder>,
    pub deal: Option<Deal>,
}

/// A tick of a symbol. The prices are in hundred-thousandths.
#[derive(Clone, Copy, Debug, PartialEq, Eq, Structural)]
pub struct SpotEvent {
    pub symbol_id: i64,
    pub bid: Option<u64>,
    pub ask: Option<u64>,
    pub timestamp: Option<i64>,
}

#[derive(Debug)]
pub struct OrderErrorEvent {
    pub error_code: String,
    pub order_id: Option<i64>,
    pub description: Option<String>,
}

#[derive(Debug)]
pub struct ErrorRes {
    pub error_code: String,
    pub description: Option<String>,
}

#[derive(Debug)]
pub struct ReconcileRes {
    pub position: Vec<ProtoPosition>,
    pub order: Vec<ProtoOrder>,
}

#[derive(Debug)]
pub struct LightSymbol {
    pub symbol_id: i64,
    pub symbol_name: Option<String>,
}

#[derive(Debug)]
pub struct SymbolsListRes {
    pub symbol: Vec<LightSymbol>,
}

#[derive(Clone, Copy, Debug, PartialEq, Eq, Structural)]
pub struct Trader {
    pub balance: i64,
    pub money_digits: Option<u32>,
    pub deposit_asset_id: i64,
}

#[derive(Debug)]
pub struct Asset {
    pub asset_id: i64,
    pub name: String,
}

#[derive(Debug)]
pub struct AssetListRes {
    pub asset: Vec<Asset>,
}

#[derive(Debug)]
pub struct RefreshTokenRes {
    pub access_token: String,
    pub refresh_token: String,
    pub expires_in: i64,
}

// ----------------------------------------------------------- outbound messages

/// The parameters of an order that is sent to the broker. Every other field
/// of the broker's message is left unset.
#[derive(Clone, Copy, Debug, PartialEq, Eq, Structural)]
pub struct NewOrderReq {
    pub account_id: i64,
    pub symbol_id: i64,
    pub order_type: i32,
    pub trade_side: i32,
    pub volume: i64,
    pub limit_price: Option<Double>,
    pub stop_price: Option<Double>,
    pub stop_loss: Option<Double>,
    pub take_profit: Option<Double>,
}

/// A message to the broker.
#[derive(Debug)]
pub enum Request {
    Heartbeat,
    ApplicationAuth { client_id: String, client_secret: String },
    AccountAuth { account_id: i64, access_token: String },
    RefreshToken { refresh_token: String },
    Reconcile { account_id: i64, return_protection_orders: bool },
    SymbolsList { account_id: i64, include_archived_symbols: bool },
    Trader { account_id: i64 },
    AssetList { account_id: i64 },
    SubscribeSpots { account_id: i64, symbol_id: Vec<i64>, subscribe_to_spot_timestamp: bool },
    NewOrder(NewOrderReq),
    CancelOrder { account_id: i64, order_id: i64 },
    ClosePosition { account_id: i64, position_id: i64, volume: i64 },
}

/// What a request reads as.
pub enum RequestView {
    Heartbeat,
    ApplicationAuth { client_id: Seq<char>, client_secret: Seq<char> },
    AccountAuth { account_id: i64, access_token: Seq<char> },
    RefreshToken { refresh_token: Seq<char> },
    Reconcile { account_id: i64, return_protection_orders: bool },
    SymbolsList { account_id: i64, include_archived_symbols: bool },
    Trader { account_id: i64 },
    AssetList { account_id: i64 },
    SubscribeSpots { account_id: i64, symbol_id: Seq<i64>, subscribe_to_spot_timestamp: bool },
    NewOrder(NewOrderReq),
    CancelOrder { account_id: i64, order_id: i64 },
    ClosePosition { account_id: i64, position_id: i64, volume: i64 },
}

impl RequestView {
    /// The payload type number that goes into the envelope.
    pub open spec fn payload_type(self) -> u32 {
        match self {
            RequestView::Heartbeat => HEARTBEAT_EVENT,
            RequestView::ApplicationAuth { .. } => OA_APPLICATION_AUTH_REQ,
            RequestView::AccountAuth { .. } => OA_ACCOUNT_AUTH_REQ,
            RequestView::RefreshToken { .. } => OA_REFRESH_TOKEN_REQ,
            RequestView::Reconcile { .. } => OA_RECONCILE_REQ,
            RequestView::SymbolsList { .. } => OA_SYMBOLS_LIST_REQ,
            RequestView::Trader { .. } => OA_TRADER_REQ,
            RequestView::AssetList { .. } => OA_ASSET_LIST_REQ,
            RequestView::SubscribeSpots { .. } => OA_SUBSCRIBE_SPOTS_REQ,
            RequestView::NewOrder(..) => OA_NEW_ORDER_REQ,
            RequestView::CancelOrder { .. } => OA_CANCEL_ORDER_REQ,
            RequestView::ClosePosition { .. } => OA_CLOSE_POSITION_REQ,
        }
    }
}

impl Request {
    pub open spec fn view(&self) -> RequestView {
        match self {
            Request::Heartbeat => RequestView::Heartbeat,
            Request::ApplicationAuth { client_id, client_secret } => RequestView::ApplicationAuth {
                client_id: client_id@,
                client_secret: client_secret@,
            },
            Request::AccountAuth { account_id, access_token } => RequestView::AccountAuth {
                account_id: *account_id,
                access_token: access_token@,
            },
            Request::RefreshToken { refresh_token } => RequestView::RefreshToken {
                refresh_token: refresh_token@,
            },
            Request::Reconcile { account_id, return_protection_orders } => RequestView::Reconcile {
                account_id: *account_id,
                return_protection_orders: *return_protection_orders,
            },
            Request::SymbolsList { account_id, include_archived_symbols } =>
            RequestView::SymbolsList {
                account_id: *account_id,
                include_archived_symbols: *include_archived_symbols,
            },
            Request::Trader { account_id } => RequestView::Trader { account_id: *account_id },
            Request::AssetList { account_id } => RequestView::AssetList { account_id: *account_id },
            Request::SubscribeSpots { account_id, symbol_id, subscribe_to_spot_timestamp } =>
            RequestView::SubscribeSpots {
                account_id: *account_id,
                symbol_id: symbol_id@,
                subscribe_to_spot_timestamp: *subscribe_to_spot_timestamp,
            },
            Request::NewOrder(order) => RequestView::NewOrder(*order),
            Request::CancelOrder { account_id, order_id } => RequestView::CancelOrder {
                account_id: *account_id,
                order_id: *order_id,
            },
            Request::ClosePosition { account_id, position_id, volume } =>
            RequestView::ClosePosition {
                account_id: *account_id,
                position_id: *position_id,
                volume: *volume,
            },
        }
    }

    /// The payload type number that goes into the envelope of the message.
    pub fn payload_type(&self) -> (r: u32)
        ensures
            r == self@.payload_type(),
    {
        match self {
            Request::Heartbeat => HEARTBEAT_EVENT,
            Request::ApplicationAuth { .. } => OA_APPLICATION_AUTH_REQ,
            Request::AccountAuth { .. } => OA_ACCOUNT_AUTH_REQ,
            Request::RefreshToken { .. } => OA_REFRESH_TOKEN_REQ,
            Request::Reconcile { .. } => OA_RECONCILE_REQ,
            Request::SymbolsList { .. } => OA_SYMBOLS_LIST_REQ,
            Request::Trader { .. } => OA_TRADER_REQ,
            Request::AssetList { .. } => OA_ASSET_LIST_REQ,
            Request::SubscribeSpots { .. } => OA_SUBSCRIBE_SPOTS_REQ,
            Request::NewOrder(..) => OA_NEW_ORDER_REQ,
            Request::CancelOrder { .. } => OA_CANCEL_ORDER_REQ,
            Request::ClosePosition { .. } => OA_CLOSE_POSITION_REQ,
        }
    }
}

/// The envelope that every message travels in.
#[derive(Debug)]
pub struct ProtoMessage {
    pub payload_type: u32,
    pub payload: Option<Vec<u8>>,
    pub client_msg_id: Option<String>,
}

/// Puts the encoded message into an envelope without a client message id.
pub fn wrap(payload_type: u32, inner: Vec<u8>) -> (msg: ProtoMessage)
    ensures
        msg.payload_type == payload_type,
        msg.payload == Some(inner),
        msg.client_msg_id is None,
{
    ProtoMessage { payload_type, payload: Some(inner), client_msg_id: None }
}

/// What an optional request reads as.
pub open spec fn opt_request(r: Option<Request>) -> Option<RequestView> {
    match r {
        Some(q) => Some(q@),
        None => None,
    }
}

// --------------------------------------------------------------------- laws

/// Each request travels under the number of its kind.
pub proof fn law_numbers_of_requests(request: RequestView)
    ensures
        request.payload_type() == 51 <==> request is Heartbeat,
        request.payload_type() == 2100 <==> request is ApplicationAuth,
        request.payload_type() == 2102 <==> request is AccountAuth,
        request.payload_type() == 2106 <==> request is NewOrder,
        request.payload_type() == 2108 <==> request is CancelOrder,
        request.payload_type() == 2111 <==> request is ClosePosition,
        request.payload_type() == 2112 <==> request is AssetList,
        request.payload_type() == 2114 <==> request is SymbolsList,
        request.payload_type() == 2121 <==> request is Trader,
        request.payload_type() == 2124 <==> request is Reconcile,
        request.payload_type() == 2127 <==> request is SubscribeSpots,
        request.payload_type() == 2173 <==> request is RefreshToken,
{
}

/// The numbers that the broker uses for sides, kinds and statuses are told
/// apart.
pub proof fn law_numbers_differ()
    ensures
        TRADE_SIDE_BUY == 1 && TRADE_SIDE_SELL == 2,
        ORDER_TYPE_MARKET == 1 && ORDER_TYPE_LIMIT == 2 && ORDER_TYPE_STOP == 3
            && ORDER_TYPE_STOP_LIMIT == 6,
        ORDER_STATUS_ACCEPTED == 1 && ORDER_STATUS_FILLED == 2 && ORDER_STATUS_REJECTED == 3
            && ORDER_STATUS_EXPIRED == 4 && ORDER_STATUS_CANCELLED == 5,
        POSITION_STATUS_CLOSED == 2,
        ERROR_RES == 50 && HEARTBEAT_EVENT == 51,
        OA_APPLICATION_AUTH_RES == 2101 && OA_ACCOUNT_AUTH_RES == 2103,
        OA_ASSET_LIST_RES == 2113 && OA_SYMBOLS_LIST_RES == 2115 && OA_TRADER_RES == 2122,
        OA_RECONCILE_RES == 2125 && OA_EXECUTION_EVENT == 2126 && OA_SUBSCRIBE_SPOTS_RES == 2128,
        OA_SPOT_EVENT == 2131 && OA_ORDER_ERROR_EVENT == 2132 && OA_ERROR_RES == 2142,
        OA_REFRESH_TOKEN_RES == 2174,
{
}

} // verus!
