//! What a client of the WebSocket gets: first a snapshot, then the frames as
//! they come.

use vstd::prelude::*;

use crate::dto;
use crate::dto::WsFrame;
use crate::state;
use crate::state::{status_str, AppState, Order, Position, Quote};

verus! {

/// What the bot knows when a client connects.
#[derive(Debug)]
pub struct Snapshot {
    pub status: &'static str,
    pub quotes: Vec<Quote>,
    pub positions: Vec<Position>,
    pub orders: Vec<Order>,
}

/// Whether the list has the quote of each symbol that has one, once.
pub open spec fn holds_quotes(quotes: Map<i64, Quote>, list: Seq<Quote>) -> bool {
    &&& forall|i: int, j: int|
        0 <= i < j < list.len() ==> (#[trigger] list[i]).symbol_id != (#[trigger] list[j]).symbol_id
    &&& forall|i: int|
        0 <= i < list.len() ==> quotes.contains_key((#[trigger] list[i]).symbol_id)
            && quotes[list[i].symbol_id] == list[i]
    &&& forall|id: i64| #[trigger]
        quotes.contains_key(id) ==> exists|i: int|
            0 <= i < list.len() && (#[trigger] list[i]).symbol_id == id
}

/// What a snapshot reads as.
pub struct SnapshotView {
    pub status: Seq<char>,
    pub quotes: Seq<Quote>,
    pub positions: Seq<Position>,
    pub orders: Seq<Order>,
}

impl Snapshot {
    pub open spec fn view(&self) -> SnapshotView {
        SnapshotView {
            status: self.status@,
            quotes: self.quotes@,
            positions: self.positions@,
            orders: self.orders@,
        }
    }
}

/// Whether the snapshot shows what the bot knows. The order of the quotes is
/// left open.
pub open spec fn shows(view: SnapshotView, s: state::StateView) -> bool {
    &&& view.status == state::status_text(s.status)
    &&& holds_quotes(s.quotes, view.quotes)
    &&& view.positions == s.positions
    &&& view.orders == s.orders
}

/// What the bot knows. The order of the quotes is left open.
pub fn snapshot(state: &AppState) -> (r: Snapshot)
    ensures
        shows(r@, state@),
{
    let mut positions: Vec<Position> = Vec::new();
    for i in 0..state.positions.len()
        invariant
            positions@ == state.positions@.take(i as int),
    {
        positions.push(state.positions[i]);
        assert(state.positions@.take(i + 1) =~= state.positions@.take(i as int).push(
            state.positions@[i as int],
        ));
    }
    assert(state.positions@.take(state.positions@.len() as int) =~= state.positions@);
    let mut orders: Vec<Order> = Vec::new();
    for i in 0..state.orders.len()
        invariant
            orders@ == state.orders@.take(i as int),
    {
        orders.push(state.orders[i]);
        assert(state.orders@.take(i + 1) =~= state.orders@.take(i as int).push(
            state.orders@[i as int],
        ));
    }
    assert(state.orders@.take(state.orders@.len() as int) =~= state.orders@);
    let quotes = state.quotes.list();
    Snapshot { status: status_str(state.status()), quotes, positions, orders }
}

/// What comes up while a client is connected.
#[derive(Debug)]
pub enum SocketEvent {
    /// The bot pushed a frame.
    Pushed(WsFrame),
    /// The client fell behind, and frames were dropped.
    Lagged,
    /// The bot pushes no more frames.
    BotGone,
    /// The client closed the connection, or it ended.
    ClientGone,
    /// Reading from the client failed.
    ReadFailed,
    /// The client sent something else.
    ClientMessage,
    /// Writing to the client failed.
    WriteFailed,
}

/// What to do about a connected client.
#[derive(Debug)]
pub enum SocketStep {
    /// Send it the frame.
    Forward(WsFrame),
    /// Wait for what comes next.
    Wait,
    /// Let it go.
    Stop,
}

pub enum SocketStepView {
    Forward(dto::FrameView),
    Wait,
    Stop,
}

impl SocketStep {
    pub open spec fn view(&self) -> SocketStepView {
        match self {
            SocketStep::Forward(frame) => SocketStepView::Forward(frame@),
            SocketStep::Wait => SocketStepView::Wait,
            SocketStep::Stop => SocketStepView::Stop,
        }
    }
}

/// What to do about a connected client. To fall behind is no reason to let it
/// go, and what it sends is not looked at.
pub open spec fn socket_step(event: SocketEvent) -> SocketStepView {
    match event {
        SocketEvent::Pushed(frame) => SocketStepView::Forward(frame@),
        SocketEvent::Lagged | SocketEvent::ClientMessage => SocketStepView::Wait,
        SocketEvent::BotGone | SocketEvent::ClientGone | SocketEvent::ReadFailed
        | SocketEvent::WriteFailed => SocketStepView::Stop,
    }
}

/// Goes on with a connected client.
pub fn handle_socket(event: SocketEvent) -> (r: SocketStep)
    ensures
        r@ == socket_step(event),
{
    match event {
        SocketEvent::Pushed(frame) => SocketStep::Forward(frame),
        SocketEvent::Lagged | SocketEvent::ClientMessage => SocketStep::Wait,
        SocketEvent::BotGone | SocketEvent::ClientGone | SocketEvent::ReadFailed
        | SocketEvent::WriteFailed => SocketStep::Stop,
    }
}

// --------------------------------------------------------------------- laws

/// A client gets every frame that the bot pushes, as it is. It is let go when
/// the bot or the client is gone or the connection fails, and on nothing else.
pub proof fn law_clients_get_what_is_pushed(event: SocketEvent)
    ensures
        match socket_step(event) {
            SocketStepView::Forward(frame) => event matches SocketEvent::Pushed(pushed) && pushed@
                == frame,
            SocketStepView::Wait => event is Lagged || event is ClientMessage,
            SocketStepView::Stop => event is BotGone || event is ClientGone || event is ReadFailed
                || event is WriteFailed,
        },
{
}

/// A snapshot has the positions and the orders of the bot, in order, and the
/// last quote of each symbol, once.
pub proof fn law_snapshot_shows_what_is_known(
    view: SnapshotView,
    s: state::StateView,
    i: int,
    j: int,
)
    requires
        shows(view, s),
    ensures
        view.positions.len() == s.positions.len(),
        view.orders.len() == s.orders.len(),
        0 <= i < s.positions.len() ==> view.positions[i] == s.positions[i],
        0 <= i < s.orders.len() ==> view.orders[i] == s.orders[i],
        0 <= i < view.quotes.len() ==> s.quotes.contains_key(view.quotes[i].symbol_id)
            && s.quotes[view.quotes[i].symbol_id] == view.quotes[i],
        0 <= i < view.quotes.len() && 0 <= j < view.quotes.len() && view.quotes[i].symbol_id
            == view.quotes[j].symbol_id ==> i == j,
        s.status == 3 ==> view.status == "authenticated"@,
        s.status == 2 ==> view.status == "connected"@,
        s.status == 1 ==> view.status == "connecting"@,
        s.status == 0 || s.status > 3 ==> view.status == "disconnected"@,
{
    dto::law_states_of_the_connection(s.status);
    if 0 <= i < j < view.quotes.len() {
        assert(view.quotes[i].symbol_id != view.quotes[j].symbol_id);
    }
    if 0 <= j < i < view.quotes.len() {
        assert(view.quotes[j].symbol_id != view.quotes[i].symbol_id);
    }
}

/// A snapshot has the quote of every symbol that ticked.
pub proof fn law_snapshot_has_every_quote(view: SnapshotView, s: state::StateView, id: i64) -> (i:
    int)
    requires
        shows(view, s),
        s.quotes.contains_key(id),
    ensures
        0 <= i < view.quotes.len(),
        view.quotes[i].symbol_id == id,
        view.quotes[i] == s.quotes[id],
{
    choose|i: int| 0 <= i < view.quotes.len() && (#[trigger] view.quotes[i]).symbol_id == id
}

} // verus!
