//! `GET /api/account`

use vstd::prelude::*;

use crate::dto;
use crate::dto::Account;
use crate::routes;
use crate::routes::{api_err, ApiError};
use crate::state;
use crate::state::AppState;

verus! {

/// The account, or an error until the broker has told of it.
pub open spec fn account_answer(s: state::StateView) -> Result<
    dto::AccountView,
    routes::ApiErrorView,
> {
    match s.account {
        Some(account) => Ok(account),
        None => Err(
            routes::error(
                routes::SERVICE_UNAVAILABLE,
                "account_unavailable"@,
                "Trader info has not arrived yet; try again once the bot is authenticated."@,
            ),
        ),
    }
}

/// The account, or an error until the broker has told of it.
pub fn get_account(state: &AppState) -> (r: Result<Account, ApiError>)
    ensures
        match account_answer(state@) {
            Ok(account) => r matches Ok(a) && a@ == account,
            Err(error) => r matches Err(e) && e@ == error,
        },
{
    match &state.account {
        Some(a) => Ok(a.clone()),
        None => Err(
            api_err(
                routes::SERVICE_UNAVAILABLE,
                "account_unavailable",
                "Trader info has not arrived yet; try again once the bot is authenticated.",
            ),
        ),
    }
}

/// The account is served as it is known, and until then the service is not
/// available.
pub proof fn law_account_is_served(s: state::StateView)
    ensures
        match account_answer(s) {
            Ok(account) => s.account == Some(account),
            Err(e) => s.account is None && e.status == 503 && e.code == "account_unavailable"@
                && e.message
                == "Trader info has not arrived yet; try again once the bot is authenticated."@
                && e.details is None,
        },
{
}

} // verus!
