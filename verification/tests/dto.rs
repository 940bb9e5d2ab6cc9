use ctrader_bot::dto::{
    format_ms_rfc3339, rfc3339_from_ms, Account, ApiErrorBody, ConnectionState, LogLevel, Order, OrderKind, OrderStatus, PlaceOrderRequest, Position, Quote, Side, Status,
    StrategyState, StrategyStatus, SymbolInfo, WsFrame,
};
use ctrader_bot::state;
use ctrader_bot::state::{AppState, STATUS_AUTHENTICATED, STATUS_DISCONNECTED};
use ctrader_bot::symbols::{SymbolCatalog, SymbolMeta};
use ctrader_bot::units::{Double, Money};

fn catalog_with(id: i64, name: &str) -> SymbolCatalog {
    let mut c = SymbolCatalog::new();
    c.populate(&[(id, name)]);
    c
}

fn double(value: f64) -> Double {
    Double { bits: value.to_bits() }
}

fn no_money() -> Money {
    Money { amount: 0, digits: 2 }
}

#[test]
fn side_roundtrips() {
    assert_eq!(Side::from_internal("BUY").as_internal(), "BUY");
    assert_eq!(Side::from_internal("SELL").as_internal(), "SELL");
    assert_eq!(Side::from_internal("garbage"), Side::Buy);
}

#[test]
fn order_kind_normalises_stop_limit() {
    assert_eq!(OrderKind::from_internal("STOP_LIMIT"), OrderKind::Stop);
    assert_eq!(OrderKind::from_internal("MARKET"), OrderKind::Market);
    assert_eq!(OrderKind::from_internal("LIMIT"), OrderKind::Limit);
}

#[test]
fn order_kind_internal_names() {
    assert_eq!(OrderKind::Market.as_internal(), "MARKET");
    assert_eq!(OrderKind::Limit.as_internal(), "LIMIT");
    assert_eq!(OrderKind::Stop.as_internal(), "STOP");
    assert_eq!(OrderKind::from_internal("STOP"), OrderKind::Stop);
    assert_eq!(OrderKind::from_internal("garbage"), OrderKind::Market);
}

#[test]
fn order_status_rejected_expired() {
    assert_eq!(OrderStatus::from_internal("EXPIRED"), OrderStatus::Rejected);
    assert_eq!(OrderStatus::from_internal("ACCEPTED"), OrderStatus::Pending);
}

#[test]
fn order_status_names() {
    assert_eq!(OrderStatus::from_internal("FILLED"), OrderStatus::Filled);
    assert_eq!(OrderStatus::from_internal("CANCELLED"), OrderStatus::Cancelled);
    assert_eq!(OrderStatus::from_internal("REJECTED"), OrderStatus::Rejected);
    assert_eq!(OrderStatus::Filled.as_str(), "filled");
    assert_eq!(OrderStatus::Pending.as_str(), "pending");
    assert_eq!(OrderStatus::Cancelled.as_str(), "cancelled");
    assert_eq!(OrderStatus::Rejected.as_str(), "rejected");
}

#[test]
fn connection_state_from_each_number() {
    assert_eq!(ConnectionState::from_raw(0), ConnectionState::Disconnected);
    assert_eq!(ConnectionState::from_raw(1), ConnectionState::Connecting);
    assert_eq!(ConnectionState::from_raw(2), ConnectionState::Connected);
    assert_eq!(ConnectionState::from_raw(3), ConnectionState::Authenticated);
    assert_eq!(ConnectionState::from_raw(200), ConnectionState::Disconnected);
}

#[test]
fn quote_is_served_by_name() {
    let cat = catalog_with(1, "EURUSD");
    let q = Quote::from_state(
        &state::Quote {
            symbol_id: 1,
            bid: Some(108_000),
            ask: Some(108_002),
            timestamp_ms: Some(1_713_440_000_000),
        },
        &cat,
    );
    assert_eq!(q.symbol, "EURUSD");
    assert_eq!(q.bid, 108_000);
    assert_eq!(q.ask, 108_002);
    assert_eq!(q.time, 1_713_440_000_000);
}

#[test]
fn quote_without_prices_or_time_has_zeros() {
    let cat = SymbolCatalog::new();
    let q = Quote::from_state(
        &state::Quote { symbol_id: 5, bid: None, ask: None, timestamp_ms: Some(-7) },
        &cat,
    );
    assert_eq!(q.symbol, "SYMBOL_5");
    assert_eq!(q.bid, 0);
    assert_eq!(q.ask, 0);
    assert_eq!(q.time, 0);
}

#[test]
fn position_serialises_open_price_and_opened_at() {
    let cat = catalog_with(1, "EURUSD");
    let p = Position::from_state(
        &state::Position {
            position_id: 42,
            symbol_id: 1,
            side: "BUY",
            volume: 10,
            entry_price: Some(double(1.08234)),
            stop_loss: None,
            take_profit: None,
            swap: no_money(),
            commission: no_money(),
            open_timestamp_ms: Some(1_713_440_000_000),
        },
        &cat,
    );
    assert_eq!(p.id, "42");
    assert_eq!(p.symbol, "EURUSD");
    assert_eq!(p.side, Side::Buy);
    assert_eq!(p.open_price, double(1.08234));
    assert!(p.opened_at.starts_with("2024") || p.opened_at.starts_with("2026"));
}

#[test]
fn order_price_follows_kind() {
    let cat = catalog_with(1, "EURUSD");
    let limit = Order::from_state(
        &state::Order {
            order_id: 1,
            symbol_id: 1,
            side: "BUY",
            volume: 10,
            order_type: "LIMIT",
            status: "ACCEPTED",
            limit_price: Some(double(1.08)),
            stop_price: None,
            stop_loss: None,
            take_profit: None,
            created_at_ms: Some(0),
        },
        &cat,
    );
    assert_eq!(limit.kind, OrderKind::Limit);
    assert_eq!(limit.price, Some(double(1.08)));

    let stop = Order::from_state(
        &state::Order {
            order_id: 2,
            symbol_id: 1,
            side: "SELL",
            volume: 10,
            order_type: "STOP",
            status: "ACCEPTED",
            limit_price: None,
            stop_price: Some(double(1.07)),
            stop_loss: None,
            take_profit: None,
            created_at_ms: Some(0),
        },
        &cat,
    );
    assert_eq!(stop.kind, OrderKind::Stop);
    assert_eq!(stop.price, Some(double(1.07)));
}

#[test]
fn market_order_has_no_price() {
    let cat = catalog_with(1, "EURUSD");
    let market = Order::from_state(
        &state::Order {
            order_id: 3,
            symbol_id: 1,
            side: "BUY",
            volume: 10,
            order_type: "MARKET",
            status: "FILLED",
            limit_price: Some(double(1.08)),
            stop_price: Some(double(1.07)),
            stop_loss: Some(double(1.0)),
            take_profit: None,
            created_at_ms: None,
        },
        &cat,
    );
    assert_eq!(market.kind, OrderKind::Market);
    assert_eq!(market.price, None);
    assert_eq!(market.stop_loss, Some(double(1.0)));
    assert_eq!(market.status, OrderStatus::Filled);
    assert!(market.created_at.starts_with("1970-01-01T00:00:00"));
}

#[test]
fn place_order_request_rejects_unknown_symbol() {
    let mut cat = SymbolCatalog::new();
    cat.populate(&[(1, "EURUSD")]);
    let req = PlaceOrderRequest {
        symbol: "XAUUSD".to_string(),
        side: Side::Buy,
        kind: OrderKind::Market,
        volume: 100,
        price: None,
        stop_loss: None,
        take_profit: None,
    };
    assert!(req.into_internal(&cat).is_err());
}

#[test]
fn unknown_symbol_is_named_in_the_error() {
    let cat = SymbolCatalog::new();
    let req = PlaceOrderRequest {
        symbol: "XAUUSD".to_string(),
        side: Side::Buy,
        kind: OrderKind::Market,
        volume: 100,
        price: None,
        stop_loss: None,
        take_profit: None,
    };
    assert_eq!(req.into_internal(&cat).unwrap_err(), "unknown symbol: XAUUSD");
}

#[test]
fn place_order_request_translates_market() {
    let mut cat = SymbolCatalog::new();
    cat.populate(&[(1, "EURUSD")]);
    let req = PlaceOrderRequest {
        symbol: "EURUSD".to_string(),
        side: Side::Sell,
        kind: OrderKind::Market,
        volume: 10,
        price: Some(double(999.0)),
        stop_loss: None,
        take_profit: None,
    };
    let args = req.into_internal(&cat).unwrap();
    assert_eq!(args.symbol_id, 1);
    assert_eq!(args.side, "SELL");
    assert_eq!(args.order_type, "MARKET");
    assert!(args.limit_price.is_none());
    assert!(args.stop_price.is_none());
}

#[test]
fn place_order_request_puts_the_price_where_it_belongs() {
    let cat = catalog_with(1, "EURUSD");
    let request = |kind: OrderKind| PlaceOrderRequest {
        symbol: "EURUSD".to_string(),
        side: Side::Buy,
        kind,
        volume: 10,
        price: Some(double(1.5)),
        stop_loss: Some(double(1.4)),
        take_profit: Some(double(1.6)),
    };
    let limit = request(OrderKind::Limit).into_internal(&cat).unwrap();
    assert_eq!(limit.limit_price, Some(double(1.5)));
    assert_eq!(limit.stop_price, None);
    let stop = request(OrderKind::Stop).into_internal(&cat).unwrap();
    assert_eq!(stop.limit_price, None);
    assert_eq!(stop.stop_price, Some(double(1.5)));
    assert_eq!(stop.stop_loss, Some(double(1.4)));
    assert_eq!(stop.take_profit, Some(double(1.6)));
}

#[test]
fn status_from_state_maps_authenticated() {
    let mut state = AppState::new(7);
    state.set_status(STATUS_AUTHENTICATED);
    let s = Status::from_state(&state, 0);
    assert_eq!(s.connection, ConnectionState::Authenticated);
    assert_eq!(s.account_id, Some("7".to_string()));
}

#[test]
fn status_without_account_or_heartbeat() {
    let mut state = AppState::new(0);
    let s = Status::from_state(&state, 5);
    assert_eq!(s.connection, ConnectionState::from_raw(STATUS_DISCONNECTED));
    assert_eq!(s.account_id, None);
    assert_eq!(s.last_heartbeat_at, None);
    assert_eq!(s.uptime_seconds, 5);
    state.mark_heartbeat_at(1_713_440_000_000);
    let s = Status::from_state(&state, 5);
    assert!(s.last_heartbeat_at.unwrap().starts_with("2024-04-18T11:33:20"));
}

#[test]
fn times_are_written_in_rfc3339() {
    assert_eq!(rfc3339_from_ms(1_713_440_000_000), "2024-04-18T11:33:20Z");
    assert_eq!(rfc3339_from_ms(0), "1970-01-01T00:00:00Z");
    assert_eq!(rfc3339_from_ms(1_500), "1970-01-01T00:00:01Z");
    assert_eq!(rfc3339_from_ms(-1_000), "1969-12-31T23:59:59Z");
    assert_eq!(format_ms_rfc3339(Some(1_713_440_000_000)), rfc3339_from_ms(1_713_440_000_000));
    assert_eq!(format_ms_rfc3339(None), rfc3339_from_ms(0));
}

#[test]
fn times_read_in_order() {
    let last: i64 = 253_402_300_799_999;
    assert_eq!(rfc3339_from_ms(last), "9999-12-31T23:59:59Z");
    let samples: [i64; 8] =
        [0, 999, 1_000, 59_999, 86_400_000, 951_782_400_000, 1_713_440_000_000, last];
    for a in samples {
        assert_eq!(rfc3339_from_ms(a).len(), 20);
        for b in samples {
            if a <= b {
                assert!(rfc3339_from_ms(a) <= rfc3339_from_ms(b));
                assert_eq!(rfc3339_from_ms(a) == rfc3339_from_ms(b), a / 1000 == b / 1000);
            }
        }
    }
    assert_eq!(rfc3339_from_ms(-1), rfc3339_from_ms(-1_000));
}

#[test]
fn times_without_a_date_read_as_the_epoch() {
    let first: i64 = -8_334_601_228_800_000;
    let last: i64 = 8_210_266_876_799_999;
    assert_eq!(rfc3339_from_ms(first), "-262143-01-01T00:00:00Z");
    assert_eq!(rfc3339_from_ms(last), "+262142-12-31T23:59:59Z");
    assert_eq!(rfc3339_from_ms(first - 1), "1970-01-01T00:00:00Z");
    assert_eq!(rfc3339_from_ms(last + 1), "1970-01-01T00:00:00Z");
    assert_eq!(rfc3339_from_ms(i64::MIN), "1970-01-01T00:00:00Z");
    assert_eq!(rfc3339_from_ms(i64::MAX), "1970-01-01T00:00:00Z");
}

#[test]
fn the_clock_has_passed_the_year_2020() {
    assert!(ctrader_bot::dto::now_unix_ms() > 1_577_836_800_000);
}

#[test]
fn frames_have_their_kind() {
    let samples: Vec<(WsFrame, &str)> = vec![
        (
            WsFrame::Tick { symbol: "EURUSD".to_string(), bid: 100_000, ask: 110_000, time: 0 },
            "tick",
        ),
        (
            WsFrame::Execution {
                order_id: "1".to_string(),
                status: OrderStatus::Filled,
                detail: None,
            },
            "execution",
        ),
        (
            WsFrame::PositionUpdate {
                position: Position {
                    id: "1".to_string(),
                    symbol: "EURUSD".to_string(),
                    side: Side::Buy,
                    volume: 10,
                    open_price: double(1.0),
                    pnl: double(0.0),
                    swap: no_money(),
                    commission: no_money(),
                    opened_at: "2026-04-18T00:00:00Z".to_string(),
                },
            },
            "position_update",
        ),
        (WsFrame::PositionClosed { position_id: "1".to_string() }, "position_closed"),
        (
            WsFrame::OrderUpdate {
                order: Order {
                    id: "1".to_string(),
                    symbol: "EURUSD".to_string(),
                    side: Side::Buy,
                    kind: OrderKind::Market,
                    volume: 10,
                    price: None,
                    stop_loss: None,
                    take_profit: None,
                    status: OrderStatus::Filled,
                    created_at: "2026-04-18T00:00:00Z".to_string(),
                },
            },
            "order_update",
        ),
        (WsFrame::Status { connection: ConnectionState::Authenticated }, "status"),
        (WsFrame::Heartbeat { at: 0 }, "heartbeat"),
        (
            WsFrame::Log {
                level: LogLevel::Info,
                message: "hi".to_string(),
                fields: None,
                at: "2026-04-18T00:00:00Z".to_string(),
            },
            "log",
        ),
    ];
    for (frame, expected) in samples {
        assert_eq!(frame.kind_str(), expected, "kind_str mismatch");
        assert_eq!(format!("{:?}", frame.clone()), format!("{:?}", frame));
    }
}

#[test]
fn strategy_status_by_default() {
    let s = StrategyStatus::default();
    assert_eq!(s.name, "none");
    assert_eq!(s.state, StrategyState::Stopped);
    assert!(s.uptime_seconds.is_none());
    assert!(s.params.is_empty());
}

#[test]
fn error_body_has_code_and_message() {
    let body = ApiErrorBody::new("some_code", "some message");
    assert_eq!(body.error.code, "some_code");
    assert_eq!(body.error.message, "some message");
    assert!(body.error.details.is_none());
}

#[test]
fn account_is_cloned_field_by_field() {
    let account = Account {
        id: "7".to_string(),
        balance: Money { amount: 123_456, digits: 2 },
        equity: Money { amount: 1, digits: 2 },
        margin: Money { amount: 2, digits: 2 },
        free_margin: Money { amount: 3, digits: 2 },
        currency: "EUR".to_string(),
    };
    assert_eq!(format!("{:?}", account.clone()), format!("{:?}", account));
}

#[test]
fn symbol_info_keeps_name_and_metadata() {
    let meta = SymbolMeta {
        digits: 5,
        pip_position: 4,
        min_volume: 100_000,
        step_volume: 10_000,
        max_volume: 10_000_000,
    };
    let info = SymbolInfo::from_catalog("EURUSD".to_string(), meta);
    assert_eq!(info.symbol, "EURUSD");
    assert_eq!(info.meta.step_volume, 10_000);
}
