use ctrader_bot::dto::WsFrame;
use ctrader_bot::state::{AppState, Quote, STATUS_AUTHENTICATED};
use ctrader_bot::ws::{handle_socket, snapshot, SocketEvent, SocketStep};

#[test]
fn snapshot_has_what_the_bot_knows() {
    let mut state = AppState::new(1);
    state.set_status(STATUS_AUTHENTICATED);
    state.quotes.insert(Quote { symbol_id: 3, bid: Some(1), ask: None, timestamp_ms: None });
    state.quotes.insert(Quote { symbol_id: 3, bid: Some(2), ask: None, timestamp_ms: None });
    let s = snapshot(&state);
    assert_eq!(s.status, "authenticated");
    assert_eq!(s.quotes.len(), 1);
    assert_eq!(s.quotes[0].bid, Some(2));
    assert!(s.positions.is_empty());
    assert!(s.orders.is_empty());
}

#[test]
fn frames_are_forwarded() {
    let step = handle_socket(SocketEvent::Pushed(WsFrame::Heartbeat { at: 9 }));
    assert!(matches!(step, SocketStep::Forward(WsFrame::Heartbeat { at: 9 })));
}

#[test]
fn slow_and_talkative_clients_stay() {
    assert!(matches!(handle_socket(SocketEvent::Lagged), SocketStep::Wait));
    assert!(matches!(handle_socket(SocketEvent::ClientMessage), SocketStep::Wait));
}

#[test]
fn gone_clients_are_let_go() {
    for event in [
        SocketEvent::BotGone,
        SocketEvent::ClientGone,
        SocketEvent::ReadFailed,
        SocketEvent::WriteFailed,
    ] {
        assert!(matches!(handle_socket(event), SocketStep::Stop));
    }
}
