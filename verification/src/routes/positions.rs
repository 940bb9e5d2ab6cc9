//! `/api/positions`

use vstd::prelude::*;

use crate::dto;
use crate::dto::Position;
use crate::records;
use crate::routes;
use crate::routes::{api_err, ApiError, CommandEvent};
use crate::state;
use crate::state::{AppState, BotCommand};
use crate::text;
use crate::text::{concat3, i64_text, parse_i64};

verus! {

// ------------------------------------------------------------------- listing

/// What a list of positions reads as.
pub open spec fn position_views(list: Seq<Position>) -> Seq<dto::PositionView> {
    Seq::new(list.len(), |i: int| list[i]@)
}

/// The open positions, in order.
pub open spec fn served_positions(s: state::StateView) -> Seq<dto::PositionView> {
    Seq::new(s.positions.len(), |i: int| dto::position_dto(s.positions[i], s.symbols))
}

/// The open positions.
pub fn list_positions(state: &AppState) -> (out: Vec<Position>)
    ensures
        position_views(out@) == served_positions(state@),
{
    let mut out: Vec<Position> = Vec::new();
    for i in 0..state.positions.len()
        invariant
            out@.len() == i,
            forall|k: int|
                0 <= k < i ==> (#[trigger] out@[k])@ == dto::position_dto(
                    state@.positions[k],
                    state@.symbols,
                ),
    {
        out.push(Position::from_state(&state.positions[i], &state.symbols));
    }
    assert(position_views(out@) =~= served_positions(state@));
    out
}

// ------------------------------------------------------------------- closing

/// The body of a request to close a position.
#[derive(Clone, Copy, Debug)]
pub struct CloseBody {
    /// The volume to close; the whole position where there is none.
    pub volume: Option<i64>,
}

/// The position that a request to close names, with the volume to close, or an
/// error where the id is no number.
pub open spec fn position_to_close(position_id_str: Seq<char>, body: Option<CloseBody>) -> Result<
    (i64, Option<i64>),
    routes::ApiErrorView,
> {
    match text::text_i64(position_id_str) {
        Some(position_id) => Ok(
            (
                position_id,
                match body {
                    Some(b) => b.volume,
                    None => None,
                },
            ),
        ),
        None => Err(
            routes::error(routes::BAD_REQUEST, "invalid_position_id"@, "invalid position id"@),
        ),
    }
}

/// Begins to close a position: the command for the bot loop, or an error
/// where the id is no number.
pub fn close_position(position_id_str: &str, body: Option<CloseBody>) -> (r: Result<
    BotCommand,
    ApiError,
>)
    ensures
        match position_to_close(position_id_str@, body) {
            Ok((position_id, volume)) => r == Ok::<BotCommand, ApiError>(
                BotCommand::ClosePosition { position_id, volume },
            ),
            Err(error) => r matches Err(e) && e@ == error,
        },
{
    match parse_i64(position_id_str) {
        Some(position_id) => Ok(
            BotCommand::ClosePosition {
                position_id,
                volume: match body {
                    Some(b) => b.volume,
                    None => None,
                },
            },
        ),
        None => Err(api_err(routes::BAD_REQUEST, "invalid_position_id", "invalid position id")),
    }
}

/// The answer to a request to close: the position as it is listed.
pub open spec fn close_answer(
    s: state::StateView,
    position_id: i64,
    event: CommandEvent,
) -> Result<dto::PositionView, routes::ApiErrorView> {
    match event {
        CommandEvent::SendFailed { message } => Err(
            routes::error(routes::INTERNAL_SERVER_ERROR, "bot_channel_closed"@, message@),
        ),
        CommandEvent::Done => if records::listed(s.positions, position_id) {
            Ok(
                dto::position_dto(
                    s.positions[records::first(s.positions, position_id)],
                    s.symbols,
                ),
            )
        } else {
            Err(
                routes::error(
                    routes::NOT_FOUND,
                    "position_not_found"@,
                    "position "@ + text::int_text(position_id as int)
                        + " not found after close request"@,
                ),
            )
        },
        CommandEvent::Refused { message } => Err(
            routes::error(routes::BAD_REQUEST, "close_rejected"@, message@),
        ),
        CommandEvent::Dropped => Err(
            routes::error(
                routes::INTERNAL_SERVER_ERROR,
                "bot_channel_dropped"@,
                "bot loop dropped response"@,
            ),
        ),
    }
}

/// Answers a request to close a position.
pub fn finish_close(state: &AppState, position_id: i64, event: CommandEvent) -> (r: Result<
    Position,
    ApiError,
>)
    ensures
        match close_answer(state@, position_id, event) {
            Ok(position) => r matches Ok(p) && p@ == position,
            Err(e) => r matches Err(err) && err@ == e,
        },
{
    match event {
        CommandEvent::SendFailed { message } => Err(
            api_err(routes::INTERNAL_SERVER_ERROR, "bot_channel_closed", message.as_str()),
        ),
        CommandEvent::Done => match records::find(&state.positions, position_id) {
            Some(i) => Ok(Position::from_state(&state.positions[i], &state.symbols)),
            None => {
                let message = concat3(
                    "position ",
                    i64_text(position_id).as_str(),
                    " not found after close request",
                );
                Err(api_err(routes::NOT_FOUND, "position_not_found", message.as_str()))
            },
        },
        CommandEvent::Refused { message } => Err(
            api_err(routes::BAD_REQUEST, "close_rejected", message.as_str()),
        ),
        CommandEvent::Dropped => Err(
            api_err(
                routes::INTERNAL_SERVER_ERROR,
                "bot_channel_dropped",
                "bot loop dropped response",
            ),
        ),
    }
}

/// The id under which a position is served names that position in a request
/// to close.
pub proof fn law_served_position_can_be_closed(position: state::Position, s: state::StateView)
    ensures
        text::text_i64(dto::position_dto(position, s.symbols).id) == Some(position.position_id),
{
    text::law_decimal_round_trip(position.position_id);
}

/// Every listed position is served, in its place, under its id and the name
/// of its symbol, with its volume, swap and commission.
pub proof fn law_every_position_is_served(s: state::StateView, i: int)
    ensures
        served_positions(s).len() == s.positions.len(),
        0 <= i < s.positions.len() ==> {
            let served = served_positions(s)[i];
            &&& text::text_i64(served.id) == Some(s.positions[i].position_id)
            &&& served.symbol == s.symbols.name(s.positions[i].symbol_id)
            &&& served.volume == s.positions[i].volume
            &&& served.swap == s.positions[i].swap
            &&& served.commission == s.positions[i].commission
        },
{
    if 0 <= i < s.positions.len() {
        text::law_decimal_round_trip(s.positions[i].position_id);
    }
}

} // verus!
