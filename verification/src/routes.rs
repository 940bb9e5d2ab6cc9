//! What the HTTP API answers.

use vstd::prelude::*;

use crate::dto;
use crate::dto::ApiErrorBody;

pub mod account;
pub mod orders;
pub mod positions;
pub mod quotes;
pub mod status;
pub mod strategy;
pub mod symbols;
pub mod trades;

verus! {

pub const ACCEPTED: u16 = 202;
pub const BAD_REQUEST: u16 = 400;
pub const NOT_FOUND: u16 = 404;
pub const INTERNAL_SERVER_ERROR: u16 = 500;
pub const SERVICE_UNAVAILABLE: u16 = 503;

/// An answer other than the requested value: an HTTP status and a body.
#[derive(Debug)]
pub struct ApiError {
    pub status: u16,
    pub body: ApiErrorBody,
}

pub struct ApiErrorView {
    pub status: u16,
    pub code: Seq<char>,
    pub message: Seq<char>,
    pub details: Option<Seq<(Seq<char>, dto::FieldView)>>,
}

impl ApiError {
    pub open spec fn view(&self) -> ApiErrorView {
        ApiErrorView {
            status: self.status,
            code: self.body.error.code@,
            message: self.body.error.message@,
            details: match self.body.error.details {
                Some(d) => Some(dto::field_views(d@)),
                None => None,
            },
        }
    }
}

/// The error with the status, code and message, and without details.
pub open spec fn error(status: u16, code: Seq<char>, message: Seq<char>) -> ApiErrorView {
    ApiErrorView { status, code, message, details: None }
}

/// Makes an error without details.
pub fn api_err(status: u16, code: &str, message: &str) -> (r: ApiError)
    ensures
        r@ == error(status, code@, message@),
{
    ApiError { status, body: ApiErrorBody::new(code, message) }
}

/// What came of a command that was handed to the bot loop.
#[derive(Debug)]
pub enum CommandEvent {
    /// It could not be handed over.
    SendFailed { message: String },
    /// The bot loop did it.
    Done,
    /// The bot loop refused it.
    Refused { message: String },
    /// The bot loop went away without an answer.
    Dropped,
}

/// An error has the status, the code and the message that it is made of.
pub proof fn law_parts_of_an_error(status: u16, code: Seq<char>, message: Seq<char>)
    ensures
        error(status, code, message).status == status,
        error(status, code, message).code == code,
        error(status, code, message).message == message,
        error(status, code, message).details is None,
{
}

} // verus!
