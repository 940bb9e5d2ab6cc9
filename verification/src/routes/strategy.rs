//! `/api/strategy`: there is no strategy yet, and the answers say so.

use vstd::prelude::*;

use crate::dto;
use crate::dto::StrategyStatus;
use crate::routes;
use crate::routes::{api_err, ApiError};
use crate::text;
use crate::text::{concat2, same_text, to_lower};

verus! {

/// The state of the strategy: none, and stopped.
pub fn get_strategy() -> (r: StrategyStatus)
    ensures
        r.name@ == "none"@,
        r.state == dto::StrategyState::Stopped,
        r.uptime_seconds is None,
        r.params@.len() == 0,
{
    StrategyStatus::default()
}

fn not_implemented(code: &str, message: &str) -> (r: ApiError)
    ensures
        r@ == routes::error(routes::SERVICE_UNAVAILABLE, code@, message@),
{
    api_err(routes::SERVICE_UNAVAILABLE, code, message)
}

/// Whether the action is one of those that a strategy would know, in upper or
/// lower case.
pub open spec fn is_action(action: Seq<char>) -> bool {
    let name = text::lower(action);
    name == "start"@ || name == "stop"@ || name == "pause"@
}

/// The answer to an action: a known one is not there yet, another is wrong.
pub open spec fn action_answer(action: Seq<char>) -> routes::ApiErrorView {
    if is_action(action) {
        routes::error(
            routes::SERVICE_UNAVAILABLE,
            "strategy_not_implemented"@,
            "Strategy control is not wired up yet on the bot side."@,
        )
    } else {
        routes::error(
            routes::BAD_REQUEST,
            "invalid_action"@,
            "unknown strategy action: "@ + action,
        )
    }
}

/// The answer to an action: a known one is not there yet, another is wrong.
pub fn control_strategy(action: &str) -> (r: Result<StrategyStatus, ApiError>)
    ensures
        r matches Err(e) && e@ == action_answer(action@),
{
    let name = to_lower(action);
    let known = same_text(name.as_str(), "start") || same_text(name.as_str(), "stop") || same_text(
        name.as_str(),
        "pause",
    );
    if !known {
        let message = concat2("unknown strategy action: ", action);
        return Err(api_err(routes::BAD_REQUEST, "invalid_action", message.as_str()));
    }
    Err(
        not_implemented(
            "strategy_not_implemented",
            "Strategy control is not wired up yet on the bot side.",
        ),
    )
}

/// The answer to new parameters, whatever they are.
pub fn update_strategy_params() -> (r: Result<StrategyStatus, ApiError>)
    ensures
        r matches Err(e) && e@ == routes::error(
            routes::SERVICE_UNAVAILABLE,
            "strategy_not_implemented"@,
            "Strategy parameter updates are not supported yet."@,
        ),
{
    Err(
        not_implemented(
            "strategy_not_implemented",
            "Strategy parameter updates are not supported yet.",
        ),
    )
}

/// The three actions are known in upper and in lower case. A known action is
/// not there yet, which is the server's matter, and another is the client's
/// error, which names it as it was given.
pub proof fn law_answers_to_actions(action: Seq<char>)
    ensures
        is_action("start"@) && is_action("stop"@) && is_action("pause"@),
        is_action(text::upper(action)) == is_action(action),
        is_action(text::lower(action)) == is_action(action),
        is_action(action) ==> action.len() == 4 || action.len() == 5,
        is_action(action) ==> action_answer(action).status == 503 && action_answer(action).code
            == "strategy_not_implemented"@ && action_answer(action).message
            == "Strategy control is not wired up yet on the bot side."@,
        !is_action(action) ==> action_answer(action).status == 400 && action_answer(action).code
            == "invalid_action"@ && action_answer(action).message == "unknown strategy action: "@
            + action,
        action_answer(action).details is None,
{
    reveal_strlit("start");
    reveal_strlit("stop");
    reveal_strlit("pause");
    text::law_letter_case(action);
    text::law_letter_case(text::upper(action));
    assert(text::lower("start"@) =~= "start"@);
    assert(text::lower("stop"@) =~= "stop"@);
    assert(text::lower("pause"@) =~= "pause"@);
    assert("start"@.len() == 5 && "stop"@.len() == 4 && "pause"@.len() == 5);
}

} // verus!
