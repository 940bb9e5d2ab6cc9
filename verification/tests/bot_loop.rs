use ctrader_bot::bot_loop::{
    apply_execution, begin_startup, fetch_asset_name, handle_command, handle_incoming, order_sent,
    run, startup, subscribe_to_spots, unresolved_names, CommandStep, Message, Payload, PayloadForm,
    Phase, RunEvent, StartupError,
};
use ctrader_bot::dto::{ConnectionState, OrderKind, OrderStatus, PlaceOrderRequest, Side, WsFrame};
use ctrader_bot::misses::{note_answer, note_message, Answer};
use ctrader_bot::proto::{
    wrap, Asset, AssetListRes, ClosePositionDetail, Deal, ErrorRes, ExecutionEvent, LightSymbol,
    OrderErrorEvent, ProtoOrder, ProtoPosition, ReconcileRes, Request, SpotEvent, SymbolsListRes,
    TradeData, Trader, HEARTBEAT_EVENT, OA_ASSET_LIST_RES, OA_ERROR_RES, OA_EXECUTION_EVENT,
    OA_ORDER_ERROR_EVENT, OA_RECONCILE_RES, OA_SPOT_EVENT, OA_SUBSCRIBE_SPOTS_RES,
    OA_SYMBOLS_LIST_RES, OA_TRADER_RES, ORDER_STATUS_ACCEPTED, ORDER_STATUS_CANCELLED,
    ORDER_STATUS_EXPIRED, ORDER_STATUS_FILLED, ORDER_STATUS_REJECTED, ORDER_TYPE_LIMIT,
    POSITION_STATUS_CLOSED, TRADE_SIDE_BUY, TRADE_SIDE_SELL,
};
use ctrader_bot::state::{
    AppState, BotCommand, PlaceOrderArgs, STATUS_AUTHENTICATED, TRADES_CAPACITY,
};
use ctrader_bot::units::{Double, Money};

const POSITION_STATUS_OPEN: i32 = 1;

fn double(value: f64) -> Double {
    Double { bits: value.to_bits() }
}

fn seeded_state() -> AppState {
    let mut state = AppState::new(42);
    state.symbols.populate(&[(1, "EURUSD"), (2, "GBPUSD")]);
    state
}

fn trade_data(volume: i64, trade_side: i32) -> TradeData {
    TradeData { symbol_id: 1, volume, trade_side, open_timestamp: Some(1_713_440_000_000) }
}

fn position(position_id: i64, volume: i64, position_status: i32) -> ProtoPosition {
    ProtoPosition {
        position_id,
        trade_data: trade_data(volume, TRADE_SIDE_BUY),
        position_status,
        swap: -12,
        price: Some(double(1.08)),
        stop_loss: None,
        take_profit: None,
        commission: Some(-7),
        money_digits: Some(3),
    }
}

fn order(order_id: i64, order_status: i32) -> ProtoOrder {
    ProtoOrder {
        order_id,
        trade_data: trade_data(100, TRADE_SIDE_SELL),
        order_type: ORDER_TYPE_LIMIT,
        order_status,
        limit_price: Some(double(1.27)),
        stop_price: None,
        stop_loss: None,
        take_profit: None,
    }
}

fn deal(deal_id: i64, position_id: i64) -> Deal {
    Deal {
        deal_id,
        position_id,
        filled_volume: 55,
        symbol_id: 1,
        execution_timestamp: 1_713_440_001_000,
        execution_price: Some(double(1.09)),
        trade_side: TRADE_SIDE_SELL,
        close_position_detail: Some(ClosePositionDetail {
            entry_price: double(1.08),
            gross_profit: 1234,
            closed_volume: None,
            money_digits: None,
        }),
    }
}

fn only_position(p: ProtoPosition) -> ExecutionEvent {
    ExecutionEvent { position: Some(p), order: None, deal: None }
}

fn only_order(o: ProtoOrder) -> ExecutionEvent {
    ExecutionEvent { position: None, order: Some(o), deal: None }
}

fn shown<T: std::fmt::Debug>(value: &T) -> String {
    format!("{:?}", value)
}

#[test]
fn position_comes_changes_and_goes() {
    let mut state = seeded_state();
    let frames = apply_execution(&mut state, &only_position(position(7, 100, POSITION_STATUS_OPEN)));
    assert_eq!(frames.len(), 1);
    match &frames[0] {
        WsFrame::PositionUpdate { position } => {
            assert_eq!(position.id, "7");
            assert_eq!(position.symbol, "EURUSD");
            assert_eq!(position.volume, 100);
            assert_eq!(position.swap, Money { amount: -12, digits: 3 });
            assert_eq!(position.commission, Money { amount: -7, digits: 3 });
        }
        _ => panic!("not a position update"),
    }
    apply_execution(&mut state, &only_position(position(8, 10, POSITION_STATUS_OPEN)));
    apply_execution(&mut state, &only_position(position(7, 60, POSITION_STATUS_OPEN)));
    assert_eq!(state.positions.len(), 2);
    assert_eq!(state.positions[0].position_id, 7);
    assert_eq!(state.positions[0].volume, 60);
    let frames =
        apply_execution(&mut state, &only_position(position(7, 60, POSITION_STATUS_CLOSED)));
    assert!(matches!(&frames[..], [WsFrame::PositionClosed { position_id }] if position_id == "7"));
    assert_eq!(state.positions.len(), 1);
    assert_eq!(state.positions[0].position_id, 8);
    assert!(state.trades.is_empty());
}

#[test]
fn closed_position_that_is_not_listed_is_not_added() {
    let mut state = seeded_state();
    apply_execution(&mut state, &only_position(position(7, 60, POSITION_STATUS_CLOSED)));
    assert!(state.positions.is_empty());
}

#[test]
fn order_comes_and_goes_with_each_terminal_status() {
    for status in [
        ORDER_STATUS_FILLED,
        ORDER_STATUS_CANCELLED,
        ORDER_STATUS_EXPIRED,
        ORDER_STATUS_REJECTED,
    ] {
        let mut state = seeded_state();
        apply_execution(&mut state, &only_order(order(1, ORDER_STATUS_ACCEPTED)));
        apply_execution(&mut state, &only_order(order(2, ORDER_STATUS_ACCEPTED)));
        assert_eq!(state.orders.len(), 2);
        let frames = apply_execution(&mut state, &only_order(order(1, status)));
        assert_eq!(frames.len(), 2);
        assert_eq!(frames[0].kind_str(), "order_update");
        assert_eq!(frames[1].kind_str(), "execution");
        assert_eq!(state.orders.len(), 1);
        assert_eq!(state.orders[0].order_id, 2);
    }
}

#[test]
fn order_frames_tell_the_status() {
    let mut state = seeded_state();
    let frames = apply_execution(&mut state, &only_order(order(5, ORDER_STATUS_ACCEPTED)));
    match &frames[0] {
        WsFrame::OrderUpdate { order } => {
            assert_eq!(order.id, "5");
            assert_eq!(order.side, Side::Sell);
            assert_eq!(order.kind, OrderKind::Limit);
            assert_eq!(order.price, Some(double(1.27)));
            assert_eq!(order.status, OrderStatus::Pending);
        }
        _ => panic!("not an order update"),
    }
    assert!(matches!(
        &frames[1],
        WsFrame::Execution { order_id, status: OrderStatus::Pending, detail: None }
            if order_id == "5"
    ));
}

#[test]
fn repeated_execution_changes_nothing_more() {
    let mut state = seeded_state();
    let exec = ExecutionEvent {
        position: Some(position(7, 100, POSITION_STATUS_OPEN)),
        order: Some(order(3, ORDER_STATUS_ACCEPTED)),
        deal: None,
    };
    apply_execution(&mut state, &exec);
    let once = (shown(&state.positions), shown(&state.orders));
    apply_execution(&mut state, &exec);
    assert_eq!((shown(&state.positions), shown(&state.orders)), once);
}

#[test]
fn closing_deal_is_recorded() {
    let mut state = seeded_state();
    apply_execution(&mut state, &only_position(position(7, 100, POSITION_STATUS_OPEN)));
    let closing = ExecutionEvent {
        position: Some(position(7, 100, POSITION_STATUS_CLOSED)),
        order: None,
        deal: Some(deal(900, 7)),
    };
    apply_execution(&mut state, &closing);
    assert_eq!(state.trades.len(), 1);
    let trade = &state.trades[0];
    assert_eq!(trade.id, "900");
    assert_eq!(trade.position_id, "7");
    assert_eq!(trade.symbol, "EURUSD");
    assert_eq!(trade.side, Side::Buy);
    assert_eq!(trade.volume, 55);
    assert_eq!(trade.open_price, double(1.08));
    assert_eq!(trade.close_price, double(1.09));
    assert_eq!(trade.pnl, Money { amount: 1234, digits: 2 });
    assert_eq!(trade.opened_at, "2024-04-18T11:33:20Z");
    assert_eq!(trade.closed_at, "2024-04-18T11:33:21Z");
}

#[test]
fn deal_that_does_not_close_is_not_recorded() {
    let mut state = seeded_state();
    let open = ExecutionEvent {
        position: Some(position(7, 100, POSITION_STATUS_OPEN)),
        order: None,
        deal: Some(deal(900, 7)),
    };
    apply_execution(&mut state, &open);
    assert!(state.trades.is_empty());
    let mut no_detail = deal(901, 7);
    no_detail.close_position_detail = None;
    let closing = ExecutionEvent {
        position: Some(position(7, 100, POSITION_STATUS_CLOSED)),
        order: None,
        deal: Some(no_detail),
    };
    apply_execution(&mut state, &closing);
    assert!(state.trades.is_empty());
}

#[test]
fn trades_capacity_is_five_thousand() {
    assert_eq!(TRADES_CAPACITY, 5_000);
}

#[test]
fn history_drops_the_oldest_trade() {
    let mut state = seeded_state();
    let count: i64 = 5_001;
    for i in 0..count {
        let closing = ExecutionEvent {
            position: Some(position(i, 100, POSITION_STATUS_CLOSED)),
            order: None,
            deal: Some(deal(i, i)),
        };
        apply_execution(&mut state, &closing);
    }
    assert_eq!(state.trades.len(), TRADES_CAPACITY);
    assert_eq!(state.trades[0].id, "1");
    assert_eq!(state.trades[TRADES_CAPACITY - 1].id, "5000");
}

#[test]
fn heartbeat_is_answered_and_not_counted() {
    let mut state = seeded_state();
    let msg = Message { payload_type: HEARTBEAT_EVENT, payload: Payload::Unread };
    let reaction = handle_incoming(&mut state, &msg);
    assert!(matches!(reaction.reply, Some(Request::Heartbeat)));
    assert!(reaction.frames.is_empty());
    assert_eq!(state.last_heartbeat_at(), 0);
}

#[test]
fn tick_needs_both_prices() {
    let mut state = seeded_state();
    let spot = |bid: Option<u64>, ask: Option<u64>, timestamp: Option<i64>| Message {
        payload_type: OA_SPOT_EVENT,
        payload: Payload::Spot(SpotEvent { symbol_id: 1, bid, ask, timestamp }),
    };
    let reaction = handle_incoming(&mut state, &spot(Some(108_000), None, None));
    assert!(reaction.frames.is_empty());
    assert_eq!(state.quotes.list()[0].bid, Some(108_000));
    let reaction = handle_incoming(&mut state, &spot(Some(108_001), Some(108_003), Some(-1)));
    assert!(matches!(
        &reaction.frames[..],
        [WsFrame::Tick { symbol, bid: 108_001, ask: 108_003, time: 0 }] if symbol == "EURUSD"
    ));
    let quotes = state.quotes.list();
    assert_eq!(quotes.len(), 1);
    assert_eq!(quotes[0].ask, Some(108_003));
    assert_eq!(quotes[0].timestamp_ms, Some(-1));
}

#[test]
fn order_error_is_pushed_when_it_names_an_order() {
    let mut state = seeded_state();
    let error = |order_id: Option<i64>, description: Option<&str>| Message {
        payload_type: OA_ORDER_ERROR_EVENT,
        payload: Payload::OrderError(OrderErrorEvent {
            error_code: "NOT_ENOUGH_MONEY".to_string(),
            order_id,
            description: description.map(|d| d.to_string()),
        }),
    };
    let reaction = handle_incoming(&mut state, &error(Some(9), Some("no funds")));
    assert!(matches!(
        &reaction.frames[..],
        [WsFrame::Execution { order_id, status: OrderStatus::Rejected, detail: Some(d) }]
            if order_id == "9" && d == "NOT_ENOUGH_MONEY: no funds"
    ));
    let reaction = handle_incoming(&mut state, &error(Some(9), None));
    assert!(matches!(
        &reaction.frames[..],
        [WsFrame::Execution { detail: Some(d), .. }] if d == "NOT_ENOUGH_MONEY: "
    ));
    assert!(handle_incoming(&mut state, &error(None, Some("x"))).frames.is_empty());
}

#[test]
fn other_messages_do_nothing() {
    let mut state = seeded_state();
    let error = Message {
        payload_type: OA_ERROR_RES,
        payload: Payload::Error(ErrorRes { error_code: "E".to_string(), description: None }),
    };
    for msg in [
        error,
        Message { payload_type: OA_SUBSCRIBE_SPOTS_RES, payload: Payload::Unread },
        Message { payload_type: 9999, payload: Payload::Unread },
        Message { payload_type: OA_EXECUTION_EVENT, payload: Payload::Missing },
    ] {
        let reaction = handle_incoming(&mut state, &msg);
        assert!(reaction.reply.is_none());
        assert!(reaction.frames.is_empty());
    }
    assert!(state.positions.is_empty());
}

#[test]
fn payloads_are_decoded_by_phase() {
    assert_eq!(Phase::Symbols.payload_form(OA_SYMBOLS_LIST_RES), PayloadForm::Symbols);
    assert_eq!(Phase::Trader.payload_form(OA_SYMBOLS_LIST_RES), PayloadForm::Nothing);
    assert_eq!(Phase::Trader.payload_form(OA_TRADER_RES), PayloadForm::Trader);
    assert_eq!(Phase::Reconcile.payload_form(OA_RECONCILE_RES), PayloadForm::Reconcile);
    assert_eq!(Phase::Ready.payload_form(OA_RECONCILE_RES), PayloadForm::Nothing);
    assert_eq!(Phase::Reconcile.payload_form(OA_SPOT_EVENT), PayloadForm::Spot);
    assert_eq!(Phase::Ready.payload_form(OA_EXECUTION_EVENT), PayloadForm::Execution);
    assert_eq!(Phase::Ready.payload_form(OA_ORDER_ERROR_EVENT), PayloadForm::OrderError);
    assert_eq!(Phase::Ready.payload_form(OA_ERROR_RES), PayloadForm::Error);
}

fn trader() -> Trader {
    Trader { balance: 1_000_050, money_digits: None, deposit_asset_id: 15 }
}

fn assets(id: i64) -> Message {
    Message {
        payload_type: OA_ASSET_LIST_RES,
        payload: Payload::Assets(AssetListRes {
            asset: vec![
                Asset { asset_id: 4, name: "USD".to_string() },
                Asset { asset_id: id, name: "EUR".to_string() },
                Asset { asset_id: id, name: "XXX".to_string() },
            ],
        }),
    }
}

#[test]
fn startup_runs_through() {
    let mut state = AppState::new(42);
    let (phase, request) = begin_startup(42);
    assert_eq!(phase, Phase::Symbols);
    assert!(matches!(
        request,
        Request::SymbolsList { account_id: 42, include_archived_symbols: false }
    ));

    let list = Message {
        payload_type: OA_SYMBOLS_LIST_RES,
        payload: Payload::Symbols(SymbolsListRes {
            symbol: vec![
                LightSymbol { symbol_id: 1, symbol_name: Some("EURUSD".to_string()) },
                LightSymbol { symbol_id: 2, symbol_name: None },
            ],
        }),
    };
    let step = startup(&mut state, phase, &list);
    assert_eq!(step.next, Ok(Phase::Trader));
    assert!(matches!(step.send, Some(Request::Trader { account_id: 42 })));
    assert_eq!(state.symbols.len(), 1);
    assert_eq!(state.symbols.id("EURUSD"), Some(1));

    let msg = Message { payload_type: OA_TRADER_RES, payload: Payload::Trader(trader()) };
    let step = startup(&mut state, Phase::Trader, &msg);
    assert_eq!(step.next, Ok(Phase::Assets { trader: trader() }));
    assert!(matches!(step.send, Some(Request::AssetList { account_id: 42 })));
    assert!(state.account.is_none());

    let step = startup(&mut state, Phase::Assets { trader: trader() }, &assets(15));
    assert_eq!(step.next, Ok(Phase::Reconcile));
    assert!(matches!(
        step.send,
        Some(Request::Reconcile { account_id: 42, return_protection_orders: false })
    ));
    let account = state.account.as_ref().unwrap();
    assert_eq!(account.id, "42");
    assert_eq!(account.balance, Money { amount: 1_000_050, digits: 2 });
    assert_eq!(account.equity, account.balance);
    assert_eq!(account.free_margin, account.balance);
    assert_eq!(account.margin, account.balance);
    assert_eq!(account.currency, "EUR");

    let open = Message {
        payload_type: OA_RECONCILE_RES,
        payload: Payload::Reconcile(ReconcileRes {
            position: vec![position(7, 100, POSITION_STATUS_OPEN)],
            order: vec![order(1, ORDER_STATUS_ACCEPTED), order(2, ORDER_STATUS_ACCEPTED)],
        }),
    };
    let step = startup(&mut state, Phase::Reconcile, &open);
    assert_eq!(step.next, Ok(Phase::Ready));
    assert!(step.send.is_none());
    assert_eq!(state.positions.len(), 1);
    assert_eq!(state.orders.len(), 2);
}

#[test]
fn events_during_startup_are_not_lost() {
    let mut state = seeded_state();
    let tick = Message {
        payload_type: OA_SPOT_EVENT,
        payload: Payload::Spot(SpotEvent {
            symbol_id: 1,
            bid: Some(1),
            ask: Some(2),
            timestamp: None,
        }),
    };
    let step = startup(&mut state, Phase::Trader, &tick);
    assert_eq!(step.next, Ok(Phase::Trader));
    assert!(step.send.is_none());
    assert_eq!(step.frames.len(), 1);
    assert_eq!(state.quotes.list().len(), 1);
    let ping = Message { payload_type: HEARTBEAT_EVENT, payload: Payload::Missing };
    let step = startup(&mut state, Phase::Reconcile, &ping);
    assert!(matches!(step.send, Some(Request::Heartbeat)));
}

#[test]
fn answers_without_payload() {
    let mut state = seeded_state();
    let empty = |payload_type: u32| Message { payload_type, payload: Payload::Missing };
    let step = startup(&mut state, Phase::Symbols, &empty(OA_SYMBOLS_LIST_RES));
    assert_eq!(step.next, Ok(Phase::Trader));
    let step = startup(&mut state, Phase::Trader, &empty(OA_TRADER_RES));
    assert_eq!(step.next, Err(StartupError::TraderWithoutPayload));
    assert!(step.send.is_none());
    let step =
        startup(&mut state, Phase::Assets { trader: trader() }, &empty(OA_ASSET_LIST_RES));
    assert_eq!(step.next, Err(StartupError::AssetsWithoutPayload));
    let step = startup(&mut state, Phase::Reconcile, &empty(OA_RECONCILE_RES));
    assert_eq!(step.next, Ok(Phase::Ready));
}

#[test]
fn unknown_asset_reads_as_dollars() {
    let mut state = seeded_state();
    startup(&mut state, Phase::Assets { trader: trader() }, &assets(16));
    assert_eq!(state.account.unwrap().currency, "USD");
    let list = AssetListRes { asset: vec![Asset { asset_id: 4, name: "USD".to_string() }] };
    assert_eq!(fetch_asset_name(&list, 4), Some("USD".to_string()));
    assert_eq!(fetch_asset_name(&list, 5), None);
}

#[test]
fn digits_of_the_balance_are_cut_to_sixteen_bits() {
    let mut state = seeded_state();
    let odd = Trader { balance: 1, money_digits: Some(65_536 + 3), deposit_asset_id: 4 };
    startup(&mut state, Phase::Assets { trader: odd }, &assets(16));
    assert_eq!(state.account.unwrap().balance, Money { amount: 1, digits: 3 });
}

#[test]
fn ticks_are_asked_for_by_known_names() {
    let state = seeded_state();
    let names = |list: &[&str]| -> Vec<String> { list.iter().map(|n| n.to_string()).collect() };
    assert!(subscribe_to_spots(&state, &names(&[])).is_none());
    assert!(subscribe_to_spots(&state, &names(&["NOPE"])).is_none());
    match subscribe_to_spots(&state, &names(&["GBPUSD", "NOPE", "EURUSD"])) {
        Some(Request::SubscribeSpots { account_id, symbol_id, subscribe_to_spot_timestamp }) => {
            assert_eq!(account_id, 42);
            assert_eq!(symbol_id, vec![2, 1]);
            assert!(subscribe_to_spot_timestamp);
        }
        _ => panic!("not a subscription"),
    }
}

#[test]
fn unknown_names_are_given_in_order() {
    let state = seeded_state();
    let names: Vec<String> =
        ["Z", "GBPUSD", "A", "Z", "eurusd"].iter().map(|n| n.to_string()).collect();
    assert_eq!(unresolved_names(&state, &names), vec!["Z", "A", "Z", "eurusd"]);
    assert!(unresolved_names(&state, &Vec::new()).is_empty());
}

fn tick(symbol_id: i64, bid: Option<u64>, ask: Option<u64>) -> Message {
    Message {
        payload_type: OA_SPOT_EVENT,
        payload: Payload::Spot(SpotEvent { symbol_id, bid, ask, timestamp: None }),
    }
}

#[test]
fn unknown_symbols_of_ticks_are_reported_once() {
    let mut state = seeded_state();
    assert!(note_message(&mut state, &tick(1, Some(5), Some(6))).is_empty());
    assert!(note_message(&mut state, &tick(99, Some(5), None)).is_empty());
    assert!(note_message(&mut state, &tick(99, None, Some(6))).is_empty());
    assert!(note_message(&mut state, &tick(99, None, None)).is_empty());
    assert_eq!(note_message(&mut state, &tick(99, Some(5), Some(6))), vec![99]);
    assert!(note_message(&mut state, &tick(99, Some(5), Some(6))).is_empty());
    assert_eq!(state.symbols.len(), 2);
}

#[test]
fn unknown_symbols_of_executions_are_reported_once() {
    let exec = |status: i32, deal: Option<Deal>| {
        let mut far = position(7, 100, status);
        far.trade_data.symbol_id = 50;
        let mut odd = order(1, ORDER_STATUS_ACCEPTED);
        odd.trade_data.symbol_id = 52;
        Message {
            payload_type: OA_EXECUTION_EVENT,
            payload: Payload::Execution(ExecutionEvent {
                position: Some(far),
                order: Some(odd),
                deal,
            }),
        }
    };
    let mut closing = deal(1, 7);
    closing.symbol_id = 51;
    let mut other = deal(1, 7);
    other.symbol_id = 51;
    other.close_position_detail = None;

    let mut state = seeded_state();
    let open = exec(POSITION_STATUS_OPEN, Some(closing));
    assert_eq!(note_message(&mut state, &open), vec![50, 52]);
    assert!(note_message(&mut state, &open).is_empty());
    let closed = exec(POSITION_STATUS_CLOSED, Some(closing));
    assert_eq!(note_message(&mut state, &closed), vec![51]);

    let mut state = seeded_state();
    assert_eq!(note_message(&mut state, &exec(POSITION_STATUS_CLOSED, Some(other))), vec![52]);
    let mut state = seeded_state();
    assert_eq!(note_message(&mut state, &exec(POSITION_STATUS_CLOSED, None)), vec![52]);
}

#[test]
fn unknown_symbols_of_answers_are_reported_once() {
    let mut far = position(7, 100, POSITION_STATUS_OPEN);
    far.trade_data.symbol_id = 50;
    let mut near = position(8, 100, POSITION_STATUS_OPEN);
    near.trade_data.symbol_id = 53;
    let mut odd = order(1, ORDER_STATUS_ACCEPTED);
    odd.trade_data.symbol_id = 51;
    let mut last = order(2, ORDER_STATUS_ACCEPTED);
    last.trade_data.symbol_id = 52;
    let filled = || {
        let mut state = seeded_state();
        let open = Message {
            payload_type: OA_RECONCILE_RES,
            payload: Payload::Reconcile(ReconcileRes {
                position: vec![far, near],
                order: vec![odd, last],
            }),
        };
        assert!(note_message(&mut state, &open).is_empty());
        startup(&mut state, Phase::Reconcile, &open);
        handle_incoming(&mut state, &tick(99, Some(5), None));
        handle_incoming(&mut state, &tick(1, Some(5), None));
        state
    };

    let mut state = filled();
    assert_eq!(note_answer(&mut state, &Answer::Position { position_id: 8 }), vec![53]);
    assert!(note_answer(&mut state, &Answer::Position { position_id: 9 }).is_empty());
    assert_eq!(note_answer(&mut state, &Answer::Positions), vec![50]);
    assert!(note_answer(&mut state, &Answer::Positions).is_empty());
    assert_eq!(note_answer(&mut state, &Answer::Order { order_id: 1 }), vec![51]);
    assert_eq!(note_answer(&mut state, &Answer::NewestOrder), vec![52]);
    assert!(note_answer(&mut state, &Answer::Orders).is_empty());
    assert_eq!(note_answer(&mut state, &Answer::Quotes), vec![99]);
    assert!(note_answer(&mut state, &Answer::Quotes).is_empty());

    let mut state = filled();
    assert_eq!(note_answer(&mut state, &Answer::Orders), vec![51, 52]);
    let mut state = seeded_state();
    assert!(note_answer(&mut state, &Answer::NewestOrder).is_empty());
}

fn args(side: &str, order_type: &str) -> PlaceOrderArgs {
    PlaceOrderArgs {
        symbol_id: 1,
        side: side.to_string(),
        order_type: order_type.to_string(),
        volume: 10,
        limit_price: Some(double(1.1)),
        stop_price: None,
        stop_loss: Some(double(1.0)),
        take_profit: None,
    }
}

#[test]
fn orders_are_sent_or_refused() {
    let state = seeded_state();
    let place = |side: &str, kind: &str| {
        handle_command(&state, &BotCommand::PlaceOrder { args: args(side, kind) })
    };
    match place("SELL", "LIMIT") {
        CommandStep::Send(Request::NewOrder(req)) => {
            assert_eq!(req.account_id, 42);
            assert_eq!(req.symbol_id, 1);
            assert_eq!(req.order_type, ORDER_TYPE_LIMIT);
            assert_eq!(req.trade_side, TRADE_SIDE_SELL);
            assert_eq!(req.volume, 10);
            assert_eq!(req.limit_price, Some(double(1.1)));
            assert_eq!(req.stop_loss, Some(double(1.0)));
        }
        _ => panic!("not an order"),
    }
    assert!(matches!(place("up", "LIMIT"), CommandStep::Refuse(m) if m == "invalid side: up"));
    assert!(matches!(place("up", "?"), CommandStep::Refuse(m) if m == "invalid side: up"));
    assert!(matches!(place("BUY", "?"), CommandStep::Refuse(m) if m == "invalid order_type: ?"));
    assert!(matches!(place("BUY", "STOP_LIMIT"), CommandStep::Send(_)));
}

#[test]
fn every_request_of_the_api_is_sendable() {
    let state = seeded_state();
    for side in [Side::Buy, Side::Sell] {
        for kind in [OrderKind::Market, OrderKind::Limit, OrderKind::Stop] {
            let request = PlaceOrderRequest {
                symbol: "EURUSD".to_string(),
                side,
                kind,
                volume: 10,
                price: Some(double(1.1)),
                stop_loss: None,
                take_profit: None,
            };
            let args = request.into_internal(&state.symbols).unwrap();
            let step = handle_command(&state, &BotCommand::PlaceOrder { args });
            assert!(matches!(step, CommandStep::Send(Request::NewOrder(_))));
        }
    }
}

#[test]
fn orders_are_cancelled_and_positions_closed() {
    let mut state = seeded_state();
    let cancel = handle_command(&state, &BotCommand::CancelOrder { order_id: 5 });
    assert!(matches!(
        cancel,
        CommandStep::Send(Request::CancelOrder { account_id: 42, order_id: 5 })
    ));
    let whole = BotCommand::ClosePosition { position_id: 7, volume: None };
    assert!(matches!(
        handle_command(&state, &whole),
        CommandStep::Refuse(m) if m == "position not found"
    ));
    let part = BotCommand::ClosePosition { position_id: 7, volume: Some(3) };
    assert!(matches!(
        handle_command(&state, &part),
        CommandStep::Send(Request::ClosePosition { account_id: 42, position_id: 7, volume: 3 })
    ));
    apply_execution(&mut state, &only_position(position(7, 12_345, POSITION_STATUS_OPEN)));
    assert!(matches!(
        handle_command(&state, &whole),
        CommandStep::Send(Request::ClosePosition { position_id: 7, volume: 12_345, .. })
    ));
    apply_execution(&mut state, &only_position(position(7, 12_345, POSITION_STATUS_CLOSED)));
    assert!(matches!(handle_command(&state, &whole), CommandStep::Refuse(_)));
}

#[test]
fn sent_orders_are_accepted() {
    let result = order_sent(Ok(())).unwrap();
    assert!(result.accepted);
    assert_eq!(result.message, "order sent to server");
    assert_eq!(order_sent(Err("broken".to_string())).unwrap_err(), "broken");
}

#[test]
fn main_loop_turns() {
    let mut state = seeded_state();
    state.set_status(STATUS_AUTHENTICATED);
    let step = run(&mut state, &RunEvent::Started);
    assert!(matches!(
        &step.frames[..],
        [WsFrame::Status { connection: ConnectionState::Authenticated }]
    ));
    assert!(!step.stop);
    let step = run(&mut state, &RunEvent::Tick);
    assert!(matches!(step.send, Some(Request::Heartbeat)));
    assert!(step.frames.is_empty());
    let step = run(&mut state, &RunEvent::HeartbeatSent { now_ms: 77 });
    assert!(matches!(&step.frames[..], [WsFrame::Heartbeat { at: 77 }]));
    assert_eq!(state.last_heartbeat_at(), 77);
    let step =
        run(&mut state, &RunEvent::Command(BotCommand::CancelOrder { order_id: 5 }));
    assert!(matches!(step.send, Some(Request::CancelOrder { order_id: 5, .. })));
    assert!(step.refuse.is_none());
    let step = run(
        &mut state,
        &RunEvent::Command(BotCommand::ClosePosition { position_id: 1, volume: None }),
    );
    assert!(step.send.is_none());
    assert_eq!(step.refuse.as_deref(), Some("position not found"));
    let ping = Message { payload_type: HEARTBEAT_EVENT, payload: Payload::Unread };
    let step = run(&mut state, &RunEvent::Received(ping));
    assert!(matches!(step.send, Some(Request::Heartbeat)));
    let step = run(&mut state, &RunEvent::ReadFailed);
    assert!(step.stop);
    assert!(matches!(
        &step.frames[..],
        [WsFrame::Status { connection: ConnectionState::Disconnected }]
    ));
    assert_eq!(state.status(), 0);
}

#[test]
fn heartbeat_of_ours_is_marked_with_the_clock() {
    let mut state = seeded_state();
    let now = state.mark_heartbeat();
    assert!(now > 1_577_836_800_000);
    assert_eq!(state.last_heartbeat_at(), now);
}

#[test]
fn envelopes_hold_type_and_payload() {
    let msg = wrap(Request::Heartbeat.payload_type(), vec![1, 2]);
    assert_eq!(msg.payload_type, 51);
    assert_eq!(msg.payload, Some(vec![1, 2]));
    assert_eq!(msg.client_msg_id, None);
    assert_eq!(Request::Trader { account_id: 1 }.payload_type(), 2121);
    assert_eq!(Request::RefreshToken { refresh_token: String::new() }.payload_type(), 2173);
}
