use ctrader_bot::dto::{
    Account, ConnectionState, OrderKind, OrderStatus, PlaceOrderRequest, Side, StrategyState,
    Trade,
};
use ctrader_bot::routes::account::get_account;
use ctrader_bot::routes::orders::{
    cancel_order, continue_order, finish_cancel, list_orders, place_order, wait_is_over,
    PlaceEvent, PlaceStep, POLL_INTERVAL_MS,
};
use ctrader_bot::routes::positions::{close_position, finish_close, list_positions, CloseBody};
use ctrader_bot::routes::quotes::get_quotes;
use ctrader_bot::routes::status::get_status;
use ctrader_bot::routes::strategy::{control_strategy, get_strategy, update_strategy_params};
use ctrader_bot::routes::symbols::list_symbols;
use ctrader_bot::routes::trades::{list_trades, TradesQuery};
use ctrader_bot::routes::{CommandEvent, ACCEPTED, BAD_REQUEST, SERVICE_UNAVAILABLE};
use ctrader_bot::state::{AppState, BotCommand, Order, PlaceOrderResult, Position, Quote};
use ctrader_bot::symbols::SymbolMeta;
use ctrader_bot::units::{Double, Money};

fn double(value: f64) -> Double {
    Double { bits: value.to_bits() }
}

fn seeded_state() -> AppState {
    let mut state = AppState::new(42);
    state.symbols.populate(&[(1, "EURUSD"), (2, "GBPUSD")]);
    state
}

fn position(position_id: i64) -> Position {
    Position {
        position_id,
        symbol_id: 1,
        side: "BUY",
        volume: 10,
        entry_price: Some(double(1.08234)),
        stop_loss: None,
        take_profit: None,
        swap: Money { amount: 0, digits: 2 },
        commission: Money { amount: 0, digits: 2 },
        open_timestamp_ms: Some(1_713_440_000_000),
    }
}

fn order(order_id: i64) -> Order {
    Order {
        order_id,
        symbol_id: 2,
        side: "SELL",
        volume: 10,
        order_type: "LIMIT",
        status: "ACCEPTED",
        limit_price: Some(double(1.27)),
        stop_price: None,
        stop_loss: None,
        take_profit: None,
        created_at_ms: Some(0),
    }
}

fn trade(i: i64) -> Trade {
    Trade {
        id: format!("d{i}"),
        position_id: format!("p{i}"),
        symbol: "EURUSD".to_string(),
        side: Side::Buy,
        volume: 10,
        open_price: double(1.0),
        close_price: double(1.1),
        pnl: Money { amount: 1000, digits: 2 },
        opened_at: "2026-04-18T00:00:00Z".to_string(),
        closed_at: "2026-04-18T00:00:01Z".to_string(),
    }
}

fn request(symbol: &str) -> PlaceOrderRequest {
    PlaceOrderRequest {
        symbol: symbol.to_string(),
        side: Side::Buy,
        kind: OrderKind::Market,
        volume: 10,
        price: None,
        stop_loss: None,
        take_profit: None,
    }
}

#[test]
fn status_is_served() {
    let state = seeded_state();
    let s = get_status(&state, 3);
    assert_eq!(s.connection, ConnectionState::Disconnected);
    assert_eq!(s.uptime_seconds, 3);
    assert_eq!(s.account_id.as_deref(), Some("42"));
}

#[test]
fn get_quotes_returns_map_by_symbol() {
    let mut state = seeded_state();
    state.quotes.insert(Quote {
        symbol_id: 1,
        bid: Some(108_000),
        ask: Some(108_002),
        timestamp_ms: Some(1_713_440_000_000),
    });
    let map = get_quotes(&state);
    assert_eq!(map.len(), 1);
    let (name, eurusd) = &map[0];
    assert_eq!(name, "EURUSD");
    assert_eq!(eurusd.symbol, "EURUSD");
    assert_eq!(eurusd.bid, 108_000);
}

#[test]
fn quotes_of_one_name_are_served_once() {
    let mut state = seeded_state();
    state.symbols.populate(&[(3, "EURUSD")]);
    for symbol_id in [1, 2, 3, 4] {
        state.quotes.insert(Quote {
            symbol_id,
            bid: Some(100 + symbol_id as u64),
            ask: None,
            timestamp_ms: None,
        });
    }
    let map = get_quotes(&state);
    let mut names: Vec<&str> = map.iter().map(|e| e.0.as_str()).collect();
    names.sort();
    assert_eq!(names, vec!["EURUSD", "GBPUSD", "SYMBOL_4"]);
    for (name, quote) in &map {
        assert_eq!(name, &quote.symbol);
        match name.as_str() {
            "EURUSD" => assert!(quote.bid == 101 || quote.bid == 103),
            "GBPUSD" => assert_eq!(quote.bid, 102),
            _ => assert_eq!(quote.bid, 104),
        }
    }
}

#[test]
fn positions_are_served() {
    let mut state = seeded_state();
    state.positions.push(position(7));
    let list = list_positions(&state);
    assert_eq!(list.len(), 1);
    let p = &list[0];
    assert_eq!(p.id, "7");
    assert_eq!(p.symbol, "EURUSD");
    assert_eq!(p.side, Side::Buy);
    assert_eq!(p.open_price, double(1.08234));
    assert!(p.opened_at.ends_with("Z"));
}

#[test]
fn get_orders_renders_price_by_kind() {
    let mut state = seeded_state();
    state.orders.push(order(1));
    let list = list_orders(&state);
    let o = &list[0];
    assert_eq!(o.id, "1");
    assert_eq!(o.symbol, "GBPUSD");
    assert_eq!(o.side, Side::Sell);
    assert_eq!(o.kind, OrderKind::Limit);
    assert_eq!(o.price, Some(double(1.27)));
    assert_eq!(o.status, OrderStatus::Pending);
}

#[test]
fn get_trades_paginates_newest_first() {
    let mut state = seeded_state();
    for i in 0..3 {
        state.trades.push_back(trade(i));
    }
    let list = list_trades(&state, &TradesQuery { page: Some(0), limit: Some(10) });
    assert_eq!(list.len(), 3);
    assert_eq!(list[0].id, "d2");
    assert_eq!(list[2].id, "d0");
}

#[test]
fn pages_cover_the_history() {
    let mut state = seeded_state();
    for i in 0..5 {
        state.trades.push_back(trade(i));
    }
    let page = |page: usize, limit: usize| -> Vec<String> {
        list_trades(&state, &TradesQuery { page: Some(page), limit: Some(limit) })
            .into_iter()
            .map(|t| t.id)
            .collect()
    };
    assert_eq!(page(0, 2), vec!["d4", "d3"]);
    assert_eq!(page(1, 2), vec!["d2", "d1"]);
    assert_eq!(page(2, 2), vec!["d0"]);
    assert!(page(3, 2).is_empty());
    assert_eq!(page(1, 0), vec!["d3"]);
    assert!(page(usize::MAX, usize::MAX).is_empty());
}

#[test]
fn page_sizes_are_limited() {
    let mut state = seeded_state();
    for i in 0..600 {
        state.trades.push_back(trade(i));
    }
    assert_eq!(list_trades(&state, &TradesQuery::default()).len(), 50);
    let all = TradesQuery { page: None, limit: Some(1000) };
    assert_eq!(list_trades(&state, &all).len(), 500);
    let second = TradesQuery { page: Some(1), limit: Some(1000) };
    assert_eq!(list_trades(&state, &second).len(), 100);
}

#[test]
fn get_account_503_until_trader_response() {
    let state = seeded_state();
    let err = get_account(&state).unwrap_err();
    assert_eq!(err.status, SERVICE_UNAVAILABLE);
    assert_eq!(err.body.error.code, "account_unavailable");
}

#[test]
fn account_is_served_once_it_is_there() {
    let mut state = seeded_state();
    state.account = Some(Account {
        id: "42".to_string(),
        balance: Money { amount: 5, digits: 2 },
        equity: Money { amount: 6, digits: 2 },
        margin: Money { amount: 7, digits: 2 },
        free_margin: Money { amount: 8, digits: 2 },
        currency: "EUR".to_string(),
    });
    let account = get_account(&state).unwrap();
    assert_eq!(account.id, "42");
    assert_eq!(account.free_margin.amount, 8);
    assert_eq!(account.currency, "EUR");
}

#[test]
fn get_strategy_returns_stub() {
    let s = get_strategy();
    assert_eq!(s.name, "none");
    assert_eq!(s.state, StrategyState::Stopped);
    assert!(s.params.is_empty());
}

#[test]
fn post_strategy_start_returns_not_implemented_envelope() {
    let err = control_strategy("start").unwrap_err();
    assert_eq!(err.status, SERVICE_UNAVAILABLE);
    assert_eq!(err.body.error.code, "strategy_not_implemented");
    assert!(err.body.error.message.contains("not wired up"));
}

#[test]
fn actions_are_known_in_any_case() {
    for action in ["STOP", "Pause", "sTaRt"] {
        let err = control_strategy(action).unwrap_err();
        assert_eq!(err.body.error.code, "strategy_not_implemented");
    }
    let err = update_strategy_params().unwrap_err();
    assert_eq!(err.status, 503);
    assert_eq!(err.body.error.message, "Strategy parameter updates are not supported yet.");
}

#[test]
fn post_strategy_unknown_action_returns_400() {
    let err = control_strategy("sabotage").unwrap_err();
    assert_eq!(err.status, BAD_REQUEST);
    assert_eq!(err.body.error.code, "invalid_action");
}

#[test]
fn unknown_action_is_named_as_it_was_given() {
    let err = control_strategy("SaboTage").unwrap_err();
    assert_eq!(err.body.error.message, "unknown strategy action: SaboTage");
}

#[test]
fn post_orders_unknown_symbol_returns_400() {
    let state = seeded_state();
    let err = place_order(&state, request("XAUUSD")).unwrap_err();
    assert_eq!(err.status, BAD_REQUEST);
}

#[test]
fn post_orders_accepted_by_mocked_bot_loop() {
    let mut state = seeded_state();
    state.orders.push(order(1));
    let pending = place_order(&state, request("EURUSD")).unwrap();
    assert_eq!(pending.baseline_count, 1);
    match pending.command {
        BotCommand::PlaceOrder { args } => {
            assert_eq!(args.symbol_id, 1);
            assert_eq!(args.side, "BUY");
            assert_eq!(args.volume, 10);
        }
        _ => panic!("not an order"),
    }
    let answered = PlaceEvent::Answered {
        result: PlaceOrderResult { accepted: true, message: "ok".to_string() },
    };
    assert!(matches!(continue_order(&state, 1, answered), PlaceStep::Poll));
    let early = continue_order(&state, 1, PlaceEvent::Polled { waited_ms: 1_199 });
    assert!(matches!(early, PlaceStep::Poll));
    state.orders.push(Order {
        order_id: 99,
        symbol_id: 1,
        side: "BUY",
        volume: 10,
        order_type: "MARKET",
        status: "FILLED",
        limit_price: None,
        stop_price: None,
        stop_loss: None,
        take_profit: None,
        created_at_ms: Some(0),
    });
    match continue_order(&state, 1, PlaceEvent::Polled { waited_ms: 1_200 }) {
        PlaceStep::Placed { order } => {
            assert_eq!(order.id, "99");
            assert_eq!(order.status, OrderStatus::Filled);
        }
        _ => panic!("not placed"),
    }
}

#[test]
fn post_orders_error_returns_json_envelope() {
    let state = seeded_state();
    let err = place_order(&state, request("DOES_NOT_EXIST")).unwrap_err();
    assert_eq!(err.status, BAD_REQUEST);
    assert_eq!(err.body.error.code, "bad_request");
    assert_eq!(err.body.error.message, "unknown symbol: DOES_NOT_EXIST");
}

#[test]
fn post_orders_pending_execution_returns_json_envelope() {
    let state = seeded_state();
    match continue_order(&state, 0, PlaceEvent::Polled { waited_ms: 1_200 }) {
        PlaceStep::Failed { error } => {
            assert_eq!(error.status, ACCEPTED);
            assert_eq!(error.body.error.code, "pending_execution");
        }
        _ => panic!("not pending"),
    }
}

#[test]
fn an_accepted_order_that_does_not_show_is_pending() {
    let mut state = seeded_state();
    state.orders.push(order(1));
    let pending = place_order(&state, request("EURUSD")).unwrap();
    let answered = PlaceEvent::Answered {
        result: PlaceOrderResult { accepted: true, message: "ok".to_string() },
    };
    let mut step = continue_order(&state, pending.baseline_count, answered);
    let mut waited_ms: u64 = 0;
    let mut looks: u64 = 0;
    while matches!(step, PlaceStep::Poll) {
        let event = PlaceEvent::Polled { waited_ms };
        step = continue_order(&state, pending.baseline_count, event);
        looks += 1;
        waited_ms += POLL_INTERVAL_MS;
    }
    assert_eq!(looks, 61);
    match step {
        PlaceStep::Failed { error } => {
            assert_eq!(error.status, ACCEPTED);
            assert_eq!(error.body.error.code, "pending_execution");
            assert_eq!(
                error.body.error.message,
                "order accepted by broker; waiting on execution event (will arrive via WS)"
            );
        }
        _ => panic!("not pending"),
    }
    assert_eq!(state.orders.len(), 1);
}

#[test]
fn the_wait_lasts_1200_ms() {
    assert!(!wait_is_over(0));
    assert!(!wait_is_over(1_199));
    assert!(wait_is_over(1_200));
    assert!(wait_is_over(u64::MAX));
}

#[test]
fn each_failure_of_placing() {
    let state = seeded_state();
    let failure = |event: PlaceEvent| match continue_order(&state, 0, event) {
        PlaceStep::Failed { error } => {
            (error.status, error.body.error.code, error.body.error.message)
        }
        _ => panic!("no failure"),
    };
    let text = |s: &str| s.to_string();
    assert_eq!(
        failure(PlaceEvent::SendFailed { message: text("closed") }),
        (500, text("bot_channel_closed"), text("closed"))
    );
    let rejected = PlaceOrderResult { accepted: false, message: text("no") };
    assert_eq!(
        failure(PlaceEvent::Answered { result: rejected }),
        (400, text("broker_rejected"), text("no"))
    );
    assert_eq!(
        failure(PlaceEvent::Refused { message: text("bad") }),
        (400, text("bot_error"), text("bad"))
    );
    assert_eq!(
        failure(PlaceEvent::Dropped),
        (500, text("bot_channel_dropped"), text("bot loop dropped response"))
    );
}

#[test]
fn orders_are_cancelled_by_id() {
    let mut state = seeded_state();
    state.orders.push(order(5));
    assert!(matches!(cancel_order("5"), Ok(BotCommand::CancelOrder { order_id: 5 })));
    let err = cancel_order("five").unwrap_err();
    assert_eq!(err.status, 400);
    assert_eq!(err.body.error.code, "invalid_order_id");
    assert_eq!(err.body.error.message, "invalid order id");
    assert_eq!(finish_cancel(&state, 5, CommandEvent::Done).unwrap().id, "5");
    let err = finish_cancel(&state, 6, CommandEvent::Done).unwrap_err();
    assert_eq!(err.status, 404);
    assert_eq!(err.body.error.code, "order_not_found");
    assert_eq!(err.body.error.message, "order 6 not found after cancel request");
    let refused = CommandEvent::Refused { message: "no".to_string() };
    let err = finish_cancel(&state, 5, refused).unwrap_err();
    assert_eq!((err.status, err.body.error.code.as_str()), (400, "cancel_rejected"));
    let err = finish_cancel(&state, 5, CommandEvent::Dropped).unwrap_err();
    assert_eq!((err.status, err.body.error.code.as_str()), (500, "bot_channel_dropped"));
    let failed = CommandEvent::SendFailed { message: "x".to_string() };
    let err = finish_cancel(&state, 5, failed).unwrap_err();
    assert_eq!((err.status, err.body.error.code.as_str()), (500, "bot_channel_closed"));
}

#[test]
fn served_ids_name_the_same_object() {
    let mut state = seeded_state();
    for id in [0, -1, i64::MIN, i64::MAX] {
        state.orders = vec![order(id)];
        let served = list_orders(&state)[0].id.clone();
        assert!(matches!(
            cancel_order(&served),
            Ok(BotCommand::CancelOrder { order_id }) if order_id == id
        ));
    }
}

#[test]
fn positions_are_closed_by_id() {
    let mut state = seeded_state();
    state.positions.push(position(7));
    assert!(matches!(
        close_position("7", None),
        Ok(BotCommand::ClosePosition { position_id: 7, volume: None })
    ));
    assert!(matches!(
        close_position("+7", Some(CloseBody { volume: Some(5) })),
        Ok(BotCommand::ClosePosition { position_id: 7, volume: Some(5) })
    ));
    let err = close_position("9223372036854775808", None).unwrap_err();
    assert_eq!(err.status, 400);
    assert_eq!(err.body.error.code, "invalid_position_id");
    assert_eq!(err.body.error.message, "invalid position id");
    assert_eq!(close_position("abc", None).unwrap_err().body.error.code, "invalid_position_id");
    assert_eq!(finish_close(&state, 7, CommandEvent::Done).unwrap().id, "7");
    let failure = |position_id: i64, event: CommandEvent| {
        let err = finish_close(&state, position_id, event).unwrap_err();
        assert!(err.body.error.details.is_none());
        (err.status, err.body.error.code, err.body.error.message)
    };
    let text = |s: &str| s.to_string();
    assert_eq!(
        failure(8, CommandEvent::Done),
        (404, text("position_not_found"), text("position 8 not found after close request"))
    );
    assert_eq!(
        failure(7, CommandEvent::Refused { message: text("no") }),
        (400, text("close_rejected"), text("no"))
    );
    assert_eq!(
        failure(7, CommandEvent::Dropped),
        (500, text("bot_channel_dropped"), text("bot loop dropped response"))
    );
    assert_eq!(
        failure(7, CommandEvent::SendFailed { message: text("x") }),
        (500, text("bot_channel_closed"), text("x"))
    );
}

#[test]
fn symbols_are_listed_by_name() {
    let mut state = AppState::new(1);
    state.symbols.populate(&[(1, "b"), (2, "a"), (3, "B"), (4, "ab"), (5, "z"), (6, "\u{e9}")]);
    for (id, digits) in [(1, 1), (2, 2), (3, 3), (4, 4), (6, 6), (9, 9)] {
        state.symbols.put_meta(
            id,
            SymbolMeta {
                digits,
                pip_position: 0,
                min_volume: 0,
                step_volume: 0,
                max_volume: 0,
            },
        );
    }
    let list = list_symbols(&state);
    let names: Vec<&str> = list.iter().map(|s| s.symbol.as_str()).collect();
    assert_eq!(names, vec!["B", "a", "ab", "b", "\u{e9}"]);
    let digits: Vec<u32> = list.iter().map(|s| s.meta.digits).collect();
    assert_eq!(digits, vec![3, 2, 4, 1, 6]);
}
