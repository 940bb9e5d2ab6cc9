//! `GET /api/status`

use vstd::prelude::*;

use crate::dto;
use crate::dto::Status;
use crate::state::AppState;

verus! {

/// How the bot is doing, after `uptime_seconds` of running.
pub fn get_status(state: &AppState, uptime_seconds: u64) -> (r: Status)
    ensures
        r@ == dto::status_dto(state@, uptime_seconds),
{
    Status::from_state(state, uptime_seconds)
}

} // verus!
