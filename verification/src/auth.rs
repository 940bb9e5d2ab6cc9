//! Signing in with the broker, in two steps: first the application, then the
//! trading account. An access token that has expired is renewed once, with
//! the refresh token, and the new tokens are written to the environment file.

use vstd::prelude::*;

use crate::config;
use crate::config::Config;
use crate::proto;
use crate::proto::{ErrorRes, RefreshTokenRes, Request};
use crate::text;
use crate::text::{
    chars_of, concat2, concat3, join_chars, same_text, split_chars, starts_with_chars,
    trim_start_chars,
};

verus! {

// ------------------------------------------------------------------ messages

/// What the payload of a message is decoded as.
#[derive(Clone, Copy, Debug, PartialEq, Eq, Structural)]
pub enum AuthForm {
    /// The payload is not looked at.
    Nothing,
    Error,
    Tokens,
}

/// The payload of a message.
#[derive(Debug)]
pub enum AuthPayload {
    /// The message has none.
    Missing,
    /// There is one, which is not looked at.
    Unread,
    Error(ErrorRes),
    Tokens(RefreshTokenRes),
}

/// A message from the broker.
#[derive(Debug)]
pub struct AuthMessage {
    pub payload_type: u32,
    pub payload: AuthPayload,
}

impl AuthPayload {
    /// Whether this is a payload in the form, or no payload.
    pub open spec fn fits(self, form: AuthForm) -> bool {
        match self {
            AuthPayload::Missing => true,
            AuthPayload::Unread => form == AuthForm::Nothing,
            AuthPayload::Error(..) => form == AuthForm::Error,
            AuthPayload::Tokens(..) => form == AuthForm::Tokens,
        }
    }
}

/// Why signing in failed.
#[derive(Debug)]
pub enum AuthError {
    /// The server reported an error.
    Server { error_code: String, description: String },
    ServerWithoutPayload,
    /// The Open API reported an error.
    OpenApi { error_code: String, description: String },
    OpenApiWithoutPayload,
    /// Another answer came than the awaited one.
    Unexpected { awaited: u32, payload_type: u32 },
    /// The access token has expired, and there is no refresh token.
    AccessTokenInvalid { description: String },
    /// The access token is refused although it is new. The description is that
    /// of the first refusal.
    AccessTokenInvalidAfterRefresh { description: String },
}

pub enum AuthErrorView {
    Server { error_code: Seq<char>, description: Seq<char> },
    ServerWithoutPayload,
    OpenApi { error_code: Seq<char>, description: Seq<char> },
    OpenApiWithoutPayload,
    Unexpected { awaited: u32, payload_type: u32 },
    AccessTokenInvalid { description: Seq<char> },
    AccessTokenInvalidAfterRefresh { description: Seq<char> },
}

impl AuthError {
    pub open spec fn view(&self) -> AuthErrorView {
        match self {
            AuthError::Server { error_code, description } => AuthErrorView::Server {
                error_code: error_code@,
                description: description@,
            },
            AuthError::ServerWithoutPayload => AuthErrorView::ServerWithoutPayload,
            AuthError::OpenApi { error_code, description } => AuthErrorView::OpenApi {
                error_code: error_code@,
                description: description@,
            },
            AuthError::OpenApiWithoutPayload => AuthErrorView::OpenApiWithoutPayload,
            AuthError::Unexpected { awaited, payload_type } => AuthErrorView::Unexpected {
                awaited: *awaited,
                payload_type: *payload_type,
            },
            AuthError::AccessTokenInvalid { description } => AuthErrorView::AccessTokenInvalid {
                description: description@,
            },
            AuthError::AccessTokenInvalidAfterRefresh { description } => {
                AuthErrorView::AccessTokenInvalidAfterRefresh { description: description@ }
            },
        }
    }
}

fn description_of(err: &ErrorRes) -> (r: String)
    ensures
        r@ == text::text_or_empty(err.description),
{
    match &err.description {
        Some(d) => d.clone(),
        None => String::new(),
    }
}

/// The error that a message reports, if it reports one.
pub open spec fn reported_error(msg: AuthMessage) -> Option<AuthErrorView> {
    if msg.payload_type == proto::ERROR_RES {
        Some(
            match msg.payload {
                AuthPayload::Error(err) => AuthErrorView::Server {
                    error_code: err.error_code@,
                    description: text::text_or_empty(err.description),
                },
                _ => AuthErrorView::ServerWithoutPayload,
            },
        )
    } else if msg.payload_type == proto::OA_ERROR_RES {
        Some(
            match msg.payload {
                AuthPayload::Error(err) => AuthErrorView::OpenApi {
                    error_code: err.error_code@,
                    description: text::text_or_empty(err.description),
                },
                _ => AuthErrorView::OpenApiWithoutPayload,
            },
        )
    } else {
        None
    }
}

/// Sees to it that a message reports no error.
pub fn recv_msg(msg: &AuthMessage) -> (r: Result<(), AuthError>)
    ensures
        match reported_error(*msg) {
            Some(e) => r matches Err(err) && err@ == e,
            None => r is Ok,
        },
{
    if msg.payload_type == proto::ERROR_RES {
        return Err(
            match &msg.payload {
                AuthPayload::Error(err) => AuthError::Server {
                    error_code: err.error_code.clone(),
                    description: description_of(err),
                },
                _ => AuthError::ServerWithoutPayload,
            },
        );
    }
    if msg.payload_type == proto::OA_ERROR_RES {
        return Err(
            match &msg.payload {
                AuthPayload::Error(err) => AuthError::OpenApi {
                    error_code: err.error_code.clone(),
                    description: description_of(err),
                },
                _ => AuthError::OpenApiWithoutPayload,
            },
        );
    }
    Ok(())
}

// ------------------------------------------------------------- account step

/// What came of the account step.
#[derive(Debug)]
pub enum AccountAuthOutcome {
    Authorized,
    AccessTokenInvalid { description: String },
}

pub enum AccountAuthView {
    Authorized,
    AccessTokenInvalid { description: Seq<char> },
}

impl AccountAuthOutcome {
    pub open spec fn view(&self) -> AccountAuthView {
        match self {
            AccountAuthOutcome::Authorized => AccountAuthView::Authorized,
            AccountAuthOutcome::AccessTokenInvalid { description } => {
                AccountAuthView::AccessTokenInvalid { description: description@ }
            },
        }
    }
}

/// What comes of the account step with the answer. An access token that has
/// expired is told apart from the other errors.
pub open spec fn account_outcome(msg: AuthMessage) -> Result<AccountAuthView, AuthErrorView> {
    if msg.payload_type == proto::OA_ACCOUNT_AUTH_RES {
        Ok(AccountAuthView::Authorized)
    } else if msg.payload_type == proto::OA_ERROR_RES {
        match msg.payload {
            AuthPayload::Error(err) => if err.error_code@ == "CH_ACCESS_TOKEN_INVALID"@ {
                Ok(
                    AccountAuthView::AccessTokenInvalid {
                        description: text::text_or_empty(err.description),
                    },
                )
            } else {
                Err(
                    AuthErrorView::OpenApi {
                        error_code: err.error_code@,
                        description: text::text_or_empty(err.description),
                    },
                )
            },
            _ => Err(AuthErrorView::OpenApiWithoutPayload),
        }
    } else {
        Err(
            AuthErrorView::Unexpected {
                awaited: proto::OA_ACCOUNT_AUTH_RES,
                payload_type: msg.payload_type,
            },
        )
    }
}

/// Classifies the answer to the account step.
pub fn try_account_auth(msg: &AuthMessage) -> (r: Result<AccountAuthOutcome, AuthError>)
    ensures
        match account_outcome(*msg) {
            Ok(outcome) => r matches Ok(o) && o@ == outcome,
            Err(e) => r matches Err(err) && err@ == e,
        },
{
    if msg.payload_type == proto::OA_ACCOUNT_AUTH_RES {
        return Ok(AccountAuthOutcome::Authorized);
    }
    if msg.payload_type == proto::OA_ERROR_RES {
        return match &msg.payload {
            AuthPayload::Error(err) => {
                let description = description_of(err);
                if same_text(err.error_code.as_str(), "CH_ACCESS_TOKEN_INVALID") {
                    Ok(AccountAuthOutcome::AccessTokenInvalid { description })
                } else {
                    Err(AuthError::OpenApi { error_code: err.error_code.clone(), description })
                }
            },
            _ => Err(AuthError::OpenApiWithoutPayload),
        };
    }
    Err(
        AuthError::Unexpected {
            awaited: proto::OA_ACCOUNT_AUTH_RES,
            payload_type: msg.payload_type,
        },
    )
}

// ------------------------------------------------------------------ refresh

/// The tokens that a refresh gives.
#[derive(Debug)]
pub struct RefreshedTokens {
    pub access_token: String,
    pub refresh_token: String,
    pub expires_in: i64,
}

pub struct RefreshedTokensView {
    pub access_token: Seq<char>,
    pub refresh_token: Seq<char>,
    pub expires_in: i64,
}

impl RefreshedTokens {
    pub open spec fn view(&self) -> RefreshedTokensView {
        RefreshedTokensView {
            access_token: self.access_token@,
            refresh_token: self.refresh_token@,
            expires_in: self.expires_in,
        }
    }
}

/// What comes of a refresh with the answer. An answer without a payload reads
/// as one with empty tokens.
pub open spec fn refresh_outcome(msg: AuthMessage) -> Result<RefreshedTokensView, AuthErrorView> {
    match reported_error(msg) {
        Some(e) => Err(e),
        None => if msg.payload_type != proto::OA_REFRESH_TOKEN_RES {
            Err(
                AuthErrorView::Unexpected {
                    awaited: proto::OA_REFRESH_TOKEN_RES,
                    payload_type: msg.payload_type,
                },
            )
        } else {
            Ok(
                match msg.payload {
                    AuthPayload::Tokens(tokens) => RefreshedTokensView {
                        access_token: tokens.access_token@,
                        refresh_token: tokens.refresh_token@,
                        expires_in: tokens.expires_in,
                    },
                    _ => RefreshedTokensView {
                        access_token: Seq::empty(),
                        refresh_token: Seq::empty(),
                        expires_in: 0,
                    },
                },
            )
        },
    }
}

/// Reads the answer to a refresh.
pub fn refresh_access_token(msg: &AuthMessage) -> (r: Result<RefreshedTokens, AuthError>)
    ensures
        match refresh_outcome(*msg) {
            Ok(tokens) => r matches Ok(t) && t@ == tokens,
            Err(e) => r matches Err(err) && err@ == e,
        },
{
    match recv_msg(msg) {
        Ok(_) => {},
        Err(e) => {
            return Err(e);
        },
    }
    if msg.payload_type != proto::OA_REFRESH_TOKEN_RES {
        return Err(
            AuthError::Unexpected {
                awaited: proto::OA_REFRESH_TOKEN_RES,
                payload_type: msg.payload_type,
            },
        );
    }
    Ok(
        match &msg.payload {
            AuthPayload::Tokens(tokens) => RefreshedTokens {
                access_token: tokens.access_token.clone(),
                refresh_token: tokens.refresh_token.clone(),
                expires_in: tokens.expires_in,
            },
            _ => RefreshedTokens {
                access_token: String::new(),
                refresh_token: String::new(),
                expires_in: 0,
            },
        },
    )
}

// ---------------------------------------------------------------- signing in

/// Which answer is awaited. Once the access token was refused, the phase
/// keeps the description of that refusal.
#[derive(Debug)]
pub enum AuthPhase {
    /// The answer to the application step.
    Application,
    /// The answer to the account step.
    Account,
    /// The new tokens.
    Refresh { refusal: String },
    /// The answer to the account step, asked for again with the new token.
    Retry { refusal: String },
    /// None: the account is signed in.
    Done,
}

#[allow(inconsistent_fields)]
pub enum AuthPhaseView {
    Application,
    Account,
    Refresh { refusal: Seq<char> },
    Retry { refusal: Seq<char> },
    Done,
}

impl AuthPhaseView {
    /// The form of a payload in this phase.
    pub open spec fn form(self, payload_type: u32) -> AuthForm {
        match self {
            AuthPhaseView::Application => if payload_type == proto::ERROR_RES || payload_type
                == proto::OA_ERROR_RES {
                AuthForm::Error
            } else {
                AuthForm::Nothing
            },
            AuthPhaseView::Refresh { .. } => if payload_type == proto::ERROR_RES || payload_type
                == proto::OA_ERROR_RES {
                AuthForm::Error
            } else if payload_type == proto::OA_REFRESH_TOKEN_RES {
                AuthForm::Tokens
            } else {
                AuthForm::Nothing
            },
            _ => if payload_type == proto::OA_ERROR_RES {
                AuthForm::Error
            } else {
                AuthForm::Nothing
            },
        }
    }
}

impl AuthPhase {
    pub open spec fn view(&self) -> AuthPhaseView {
        match self {
            AuthPhase::Application => AuthPhaseView::Application,
            AuthPhase::Account => AuthPhaseView::Account,
            AuthPhase::Refresh { refusal } => AuthPhaseView::Refresh { refusal: refusal@ },
            AuthPhase::Retry { refusal } => AuthPhaseView::Retry { refusal: refusal@ },
            AuthPhase::Done => AuthPhaseView::Done,
        }
    }

    /// Whether the account is signed in.
    pub fn is_done(&self) -> (r: bool)
        ensures
            r == (self@ == AuthPhaseView::Done),
    {
        match self {
            AuthPhase::Done => true,
            _ => false,
        }
    }

    /// What the payload of a message is to be decoded as.
    pub fn payload_form(&self, payload_type: u32) -> (r: AuthForm)
        ensures
            r == self@.form(payload_type),
    {
        match self {
            AuthPhase::Application => if payload_type == proto::ERROR_RES || payload_type
                == proto::OA_ERROR_RES {
                AuthForm::Error
            } else {
                AuthForm::Nothing
            },
            AuthPhase::Refresh { .. } => if payload_type == proto::ERROR_RES || payload_type
                == proto::OA_ERROR_RES {
                AuthForm::Error
            } else if payload_type == proto::OA_REFRESH_TOKEN_RES {
                AuthForm::Tokens
            } else {
                AuthForm::Nothing
            },
            _ => if payload_type == proto::OA_ERROR_RES {
                AuthForm::Error
            } else {
                AuthForm::Nothing
            },
        }
    }
}

/// What comes of a message while signing in.
#[derive(Debug)]
pub struct AuthStep {
    /// The phase that follows, or why there is none.
    pub next: Result<AuthPhase, AuthError>,
    pub send: Option<Request>,
    /// Whether the tokens of the configuration were renewed, and are to be
    /// written to the environment file.
    pub rotated: bool,
}

/// What the outcome of a step reads as.
pub open spec fn next_view(next: Result<AuthPhase, AuthError>) -> Result<
    AuthPhaseView,
    AuthErrorView,
> {
    match next {
        Ok(phase) => Ok(phase@),
        Err(e) => Err(e@),
    }
}

/// The request that signing in begins with.
pub fn begin_auth(config: &Config) -> (r: (AuthPhase, Request))
    ensures
        r.0@ == AuthPhaseView::Application,
        Some(r.1@) == auth_request(config@, AuthPhaseView::Application),
{
    (
        AuthPhase::Application,
        Request::ApplicationAuth {
            client_id: config.client_id.clone(),
            client_secret: config.client_secret.clone(),
        },
    )
}

/// The phase that follows a message. An access token that is refused although
/// it is new fails with the description of the first refusal.
pub open spec fn next_auth_phase(
    config: config::ConfigView,
    phase: AuthPhaseView,
    msg: AuthMessage,
) -> Result<AuthPhaseView, AuthErrorView> {
    match phase {
        AuthPhaseView::Application => match reported_error(msg) {
            Some(e) => Err(e),
            None => if msg.payload_type == proto::OA_APPLICATION_AUTH_RES {
                Ok(AuthPhaseView::Account)
            } else {
                Err(
                    AuthErrorView::Unexpected {
                        awaited: proto::OA_APPLICATION_AUTH_RES,
                        payload_type: msg.payload_type,
                    },
                )
            },
        },
        AuthPhaseView::Account => match account_outcome(msg) {
            Ok(AccountAuthView::Authorized) => Ok(AuthPhaseView::Done),
            Ok(AccountAuthView::AccessTokenInvalid { description }) => match config.refresh_token {
                Some(_) => Ok(AuthPhaseView::Refresh { refusal: description }),
                None => Err(AuthErrorView::AccessTokenInvalid { description }),
            },
            Err(e) => Err(e),
        },
        AuthPhaseView::Refresh { refusal } => match refresh_outcome(msg) {
            Ok(_) => Ok(AuthPhaseView::Retry { refusal }),
            Err(e) => Err(e),
        },
        AuthPhaseView::Retry { refusal } => match account_outcome(msg) {
            Ok(AccountAuthView::Authorized) => Ok(AuthPhaseView::Done),
            Ok(AccountAuthView::AccessTokenInvalid { .. }) => Err(
                AuthErrorView::AccessTokenInvalidAfterRefresh { description: refusal },
            ),
            Err(e) => Err(e),
        },
        AuthPhaseView::Done => Ok(AuthPhaseView::Done),
    }
}

/// The configuration after a message: a refresh replaces both tokens.
pub open spec fn config_after(
    config: config::ConfigView,
    phase: AuthPhaseView,
    msg: AuthMessage,
) -> config::ConfigView {
    match (phase, refresh_outcome(msg)) {
        (AuthPhaseView::Refresh { .. }, Ok(tokens)) => config::ConfigView {
            access_token: tokens.access_token,
            refresh_token: Some(tokens.refresh_token),
            ..config
        },
        _ => config,
    }
}

/// The request that goes out when a phase begins.
pub open spec fn auth_request(
    config: config::ConfigView,
    phase: AuthPhaseView,
) -> Option<proto::RequestView> {
    match phase {
        AuthPhaseView::Application => Some(
            proto::RequestView::ApplicationAuth {
                client_id: config.client_id,
                client_secret: config.client_secret,
            },
        ),
        AuthPhaseView::Account | AuthPhaseView::Retry { .. } => Some(
            proto::RequestView::AccountAuth {
                account_id: config.account_id,
                access_token: config.access_token,
            },
        ),
        AuthPhaseView::Refresh { .. } => match config.refresh_token {
            Some(refresh_token) => Some(proto::RequestView::RefreshToken { refresh_token }),
            None => None,
        },
        AuthPhaseView::Done => None,
    }
}

fn account_request(config: &Config) -> (r: Request)
    ensures
        Some(r@) == auth_request(config@, AuthPhaseView::Account),
{
    Request::AccountAuth {
        account_id: config.account_id,
        access_token: config.access_token.clone(),
    }
}

fn failed(e: AuthError) -> (r: AuthStep)
    ensures
        r.next == Err::<AuthPhase, AuthError>(e),
        r.send is None,
        !r.rotated,
{
    AuthStep { next: Err(e), send: None, rotated: false }
}

/// What is sent to the broker on a message: the request of the phase that
/// follows, made of the configuration that follows.
pub open spec fn request_after(
    config: config::ConfigView,
    phase: AuthPhaseView,
    msg: AuthMessage,
) -> Option<proto::RequestView> {
    match next_auth_phase(config, phase, msg) {
        Ok(next) => auth_request(config_after(config, phase, msg), next),
        Err(_) => None,
    }
}

/// Whether the message renews the tokens.
pub open spec fn renews_tokens(phase: AuthPhaseView, msg: AuthMessage) -> bool {
    phase is Refresh && refresh_outcome(msg) is Ok
}

/// Takes in a message while signing in.
pub fn authenticate(config: &mut Config, phase: AuthPhase, msg: &AuthMessage) -> (r: AuthStep)
    requires
        phase@ != AuthPhaseView::Done,
        msg.payload.fits(phase@.form(msg.payload_type)),
    ensures
        next_view(r.next) == next_auth_phase(old(config)@, phase@, *msg),
        proto::opt_request(r.send) == request_after(old(config)@, phase@, *msg),
        final(config)@ == config_after(old(config)@, phase@, *msg),
        r.rotated == renews_tokens(phase@, *msg),
{
    match phase {
        AuthPhase::Application => {
            if let Err(e) = recv_msg(msg) {
                return failed(e);
            }
            if msg.payload_type != proto::OA_APPLICATION_AUTH_RES {
                return failed(
                    AuthError::Unexpected {
                        awaited: proto::OA_APPLICATION_AUTH_RES,
                        payload_type: msg.payload_type,
                    },
                );
            }
            AuthStep {
                next: Ok(AuthPhase::Account),
                send: Some(account_request(config)),
                rotated: false,
            }
        },
        AuthPhase::Account => match try_account_auth(msg) {
            Ok(AccountAuthOutcome::Authorized) => AuthStep {
                next: Ok(AuthPhase::Done),
                send: None,
                rotated: false,
            },
            Ok(AccountAuthOutcome::AccessTokenInvalid { description }) => {
                match &config.refresh_token {
                    Some(token) => AuthStep {
                        next: Ok(AuthPhase::Refresh { refusal: description }),
                        send: Some(Request::RefreshToken { refresh_token: token.clone() }),
                        rotated: false,
                    },
                    None => failed(AuthError::AccessTokenInvalid { description }),
                }
            },
            Err(e) => failed(e),
        },
        AuthPhase::Refresh { refusal } => match refresh_access_token(msg) {
            Ok(tokens) => {
                config.access_token = tokens.access_token;
                config.refresh_token = Some(tokens.refresh_token);
                AuthStep {
                    next: Ok(AuthPhase::Retry { refusal }),
                    send: Some(account_request(config)),
                    rotated: true,
                }
            },
            Err(e) => failed(e),
        },
        AuthPhase::Retry { refusal } => match try_account_auth(msg) {
            Ok(AccountAuthOutcome::Authorized) => AuthStep {
                next: Ok(AuthPhase::Done),
                send: None,
                rotated: false,
            },
            Ok(AccountAuthOutcome::AccessTokenInvalid { .. }) => failed(
                AuthError::AccessTokenInvalidAfterRefresh { description: refusal },
            ),
            Err(e) => failed(e),
        },
        AuthPhase::Done => AuthStep { next: Ok(AuthPhase::Done), send: None, rotated: false },
    }
}

// ------------------------------------------------------ laws of signing in

/// How far signing in has come.
pub open spec fn progress(phase: AuthPhaseView) -> int {
    match phase {
        AuthPhaseView::Application => 0,
        AuthPhaseView::Account => 1,
        AuthPhaseView::Refresh { .. } => 2,
        AuthPhaseView::Retry { .. } => 3,
        AuthPhaseView::Done => 4,
    }
}

/// Every message takes signing in further or ends it.
pub proof fn law_signing_in_ends(
    config: config::ConfigView,
    phase: AuthPhaseView,
    msg: AuthMessage,
)
    requires
        phase != AuthPhaseView::Done,
    ensures
        next_auth_phase(config, phase, msg) matches Ok(next) ==> progress(phase) < progress(next)
            <= 4,
{
}

/// Where signing in stands after the messages, read one after the other: the
/// configuration and the phase, or why it failed. After success or failure no
/// more are read.
pub open spec fn signing_in(
    config: config::ConfigView,
    phase: AuthPhaseView,
    msgs: Seq<AuthMessage>,
) -> Result<(config::ConfigView, AuthPhaseView), AuthErrorView>
    decreases msgs.len(),
{
    if msgs.len() == 0 || phase == AuthPhaseView::Done {
        Ok((config, phase))
    } else {
        match next_auth_phase(config, phase, msgs[0]) {
            Ok(next) => signing_in(config_after(config, phase, msgs[0]), next, msgs.drop_first()),
            Err(e) => Err(e),
        }
    }
}

/// How many of the requests that go out while the messages are read are of
/// the kind.
pub open spec fn times_asked(
    config: config::ConfigView,
    phase: AuthPhaseView,
    msgs: Seq<AuthMessage>,
    payload_type: u32,
) -> nat
    decreases msgs.len(),
{
    if msgs.len() == 0 || phase == AuthPhaseView::Done {
        0
    } else {
        match next_auth_phase(config, phase, msgs[0]) {
            Ok(next) => {
                let after = config_after(config, phase, msgs[0]);
                let now = match auth_request(after, next) {
                    Some(request) => if request.payload_type() == payload_type {
                        1nat
                    } else {
                        0nat
                    },
                    None => 0nat,
                };
                now + times_asked(after, next, msgs.drop_first(), payload_type)
            },
            Err(_) => 0,
        }
    }
}

proof fn lemma_times_asked(
    config: config::ConfigView,
    phase: AuthPhaseView,
    msgs: Seq<AuthMessage>,
)
    ensures
        times_asked(config, phase, msgs, proto::OA_REFRESH_TOKEN_REQ) <= (if progress(phase) < 2 {
            1nat
        } else {
            0nat
        }),
        times_asked(config, phase, msgs, proto::OA_ACCOUNT_AUTH_REQ) <= (if progress(phase) < 1 {
            2nat
        } else if progress(phase) < 3 {
            1nat
        } else {
            0nat
        }),
        signing_in(config, phase, msgs) matches Ok((_, last)) ==> last == AuthPhaseView::Done
            || progress(last) >= progress(phase) + msgs.len(),
    decreases msgs.len(),
{
    if msgs.len() > 0 && phase != AuthPhaseView::Done {
        if let Ok(next) = next_auth_phase(config, phase, msgs[0]) {
            lemma_times_asked(config_after(config, phase, msgs[0]), next, msgs.drop_first());
        }
    }
}

/// Whatever the broker answers, the tokens are renewed at most once, the
/// account step is taken at most twice, and after four answers signing in has
/// succeeded or failed.
pub proof fn law_one_renewal_at_most(config: config::ConfigView, msgs: Seq<AuthMessage>)
    ensures
        times_asked(config, AuthPhaseView::Application, msgs, proto::OA_REFRESH_TOKEN_REQ) <= 1,
        times_asked(config, AuthPhaseView::Application, msgs, proto::OA_ACCOUNT_AUTH_REQ) <= 2,
        msgs.len() >= 4 ==> match signing_in(config, AuthPhaseView::Application, msgs) {
            Ok((_, phase)) => phase == AuthPhaseView::Done,
            Err(_) => true,
        },
{
    lemma_times_asked(config, AuthPhaseView::Application, msgs);
}

/// Whether the message calls the access token invalid, with the description.
pub open spec fn refuses_token(msg: AuthMessage, description: Seq<char>) -> bool {
    account_outcome(msg) == Ok::<AccountAuthView, AuthErrorView>(
        AccountAuthView::AccessTokenInvalid { description },
    )
}

/// Where the access token is refused, renewed, and refused again, signing in
/// fails with the description of the first refusal, whatever the second says.
pub proof fn law_first_refusal_is_surfaced(
    config: config::ConfigView,
    msgs: Seq<AuthMessage>,
    first: Seq<char>,
    second: Seq<char>,
)
    requires
        config.refresh_token is Some,
        msgs.len() >= 4,
        msgs[0].payload_type == proto::OA_APPLICATION_AUTH_RES,
        refuses_token(msgs[1], first),
        refresh_outcome(msgs[2]) is Ok,
        refuses_token(msgs[3], second),
    ensures
        signing_in(config, AuthPhaseView::Application, msgs) == Err::<
            (config::ConfigView, AuthPhaseView),
            AuthErrorView,
        >(AuthErrorView::AccessTokenInvalidAfterRefresh { description: first }),
{
    reveal_with_fuel(signing_in, 5);
    let from1 = msgs.drop_first();
    let from2 = from1.drop_first();
    let from3 = from2.drop_first();
    assert(from1[0] == msgs[1]);
    assert(from2[0] == msgs[2]);
    assert(from3[0] == msgs[3]);
}

/// The account is signed in when the broker has answered the account step
/// with success, and on nothing else.
pub proof fn law_signed_in_by_the_broker(
    config: config::ConfigView,
    phase: AuthPhaseView,
    msg: AuthMessage,
)
    requires
        phase != AuthPhaseView::Done,
    ensures
        next_auth_phase(config, phase, msg) == Ok::<AuthPhaseView, AuthErrorView>(
            AuthPhaseView::Done,
        ) <==> (phase is Account || phase is Retry) && msg.payload_type
            == proto::OA_ACCOUNT_AUTH_RES,
{
}

/// A refresh is asked for when the broker has called the access token
/// invalid and there is a refresh token, and on nothing else.
pub proof fn law_when_tokens_are_renewed(
    config: config::ConfigView,
    phase: AuthPhaseView,
    msg: AuthMessage,
    description: Seq<char>,
)
    requires
        phase != AuthPhaseView::Done,
    ensures
        next_auth_phase(config, phase, msg) == Ok::<AuthPhaseView, AuthErrorView>(
            AuthPhaseView::Refresh { refusal: description },
        ) <==> phase is Account && config.refresh_token is Some && refuses_token(msg, description),
{
}

/// After a refresh the account step is taken again, with the new access
/// token; the configuration has both new tokens and is otherwise unchanged.
pub proof fn law_new_tokens_are_used(
    config: config::ConfigView,
    refusal: Seq<char>,
    msg: AuthMessage,
    tokens: RefreshTokenRes,
)
    requires
        msg.payload_type == proto::OA_REFRESH_TOKEN_RES,
        msg.payload == AuthPayload::Tokens(tokens),
    ensures
        ({
            let phase = AuthPhaseView::Refresh { refusal };
            let after = config_after(config, phase, msg);
            &&& next_auth_phase(config, phase, msg) == Ok::<AuthPhaseView, AuthErrorView>(
                AuthPhaseView::Retry { refusal },
            )
            &&& after == config::ConfigView {
                access_token: tokens.access_token@,
                refresh_token: Some(tokens.refresh_token@),
                ..config
            }
            &&& auth_request(after, AuthPhaseView::Retry { refusal }) == Some(
                proto::RequestView::AccountAuth {
                    account_id: config.account_id,
                    access_token: tokens.access_token@,
                },
            )
        }),
{
}

/// Where no refresh took place, the configuration stays as it was.
pub proof fn law_configuration_is_kept(
    config: config::ConfigView,
    phase: AuthPhaseView,
    msg: AuthMessage,
)
    requires
        phase !is Refresh || refresh_outcome(msg) is Err,
    ensures
        config_after(config, phase, msg) == config,
{
}

// ---------------------------------------------------------- environment file
//
// A file is its lines with line feeds between them. Where the lines of a file
// end in carriage return and line feed, the carriage return is the last
// character of the line. What follows the last line feed is a line too, which
// is empty where the file ends with a line feed.

/// The text that sets a key.
pub open spec fn env_line(key: Seq<char>, value: Seq<char>) -> Seq<char> {
    key + seq!['='] + value
}

/// Whether a line sets the key. A comment sets nothing.
pub open spec fn sets_key(line: Seq<char>, key: Seq<char>) -> bool {
    let start = text::trim_start(line);
    &&& text::starts_with(start, key + seq!['='])
    &&& !text::starts_with(start, seq!['#'])
}

/// The carriage return that belongs to the ending of a line, if it has one.
pub open spec fn own_ending(lines: Seq<Seq<char>>, i: int) -> Seq<char> {
    if i < lines.len() - 1 && text::ends_with(lines[i], '\r') {
        seq!['\r']
    } else {
        Seq::empty()
    }
}

/// The lines with the text of each line that sets the key replaced. The
/// ending of such a line is kept, and every other line as a whole.
pub open spec fn replaced(
    lines: Seq<Seq<char>>,
    key: Seq<char>,
    value: Seq<char>,
) -> Seq<Seq<char>> {
    Seq::new(
        lines.len(),
        |i: int|
            if sets_key(lines[i], key) {
                env_line(key, value) + own_ending(lines, i)
            } else {
                lines[i]
            },
    )
}

/// Whether some line sets the key.
pub open spec fn is_set(lines: Seq<Seq<char>>, key: Seq<char>) -> bool {
    exists|i: int| 0 <= i < lines.len() && sets_key(#[trigger] lines[i], key)
}

/// The lines with one more at the end of the file. It ends with a line feed
/// where the file did.
pub open spec fn appended(lines: Seq<Seq<char>>, line: Seq<char>) -> Seq<Seq<char>> {
    if lines.last().len() > 0 {
        lines.push(line)
    } else if lines.len() == 1 {
        seq![line]
    } else {
        lines.drop_last().push(line).push(Seq::empty())
    }
}

/// The lines with the key set to the value: in place where it was set, else
/// at the end.
pub open spec fn with_key(
    lines: Seq<Seq<char>>,
    key: Seq<char>,
    value: Seq<char>,
) -> Seq<Seq<char>> {
    if is_set(lines, key) {
        replaced(lines, key, value)
    } else {
        appended(lines, env_line(key, value))
    }
}

/// The lines of a file.
pub open spec fn file_lines(content: Seq<char>) -> Seq<Seq<char>> {
    text::split(content, '\n')
}

/// The file with the key set to the value.
pub open spec fn env_with(content: Seq<char>, key: Seq<char>, value: Seq<char>) -> Seq<char> {
    text::join(with_key(file_lines(content), key, value), seq!['\n'])
}

/// Sets a key in an environment file: replaces the text of the lines that set
/// it, or appends a line. Comments, blank lines and other keys are kept as
/// they are, line endings included.
pub fn replace_env_key(content: &str, key: &str, value: &str) -> (r: String)
    ensures
        r@ == env_with(content@, key@, value@),
{
    proof {
        reveal_strlit("=");
        reveal_strlit("#");
        reveal_strlit("\n");
        assert("="@ =~= seq!['=']);
        assert("#"@ =~= seq!['#']);
        assert("\n"@ =~= seq!['\n']);
    }
    let prefix = chars_of(concat2(key, "=").as_str());
    let hash = chars_of("#");
    let entry = concat3(key, "=", value);
    let lines = split_chars(&chars_of(content), '\n');
    let n = lines.len();
    let ghost all = text::views(lines@);
    let mut found = false;
    let mut out: Vec<Vec<char>> = Vec::new();
    for i in 0..n
        invariant
            n == lines@.len(),
            all == text::views(lines@),
            prefix@ == key@ + seq!['='],
            hash@ == seq!['#'],
            entry@ == env_line(key@, value@),
            text::views(out@) == replaced(all, key@, value@).take(i as int),
            found == exists|k: int| 0 <= k < i && sets_key(#[trigger] all[k], key@),
    {
        let ghost before = out@;
        let line = &lines[i];
        let start = trim_start_chars(line);
        assert(all[i as int] == line@);
        let new = if starts_with_chars(&start, &prefix) && !starts_with_chars(&start, &hash) {
            assert(sets_key(all[i as int], key@));
            found = true;
            let mut new = chars_of(entry.as_str());
            if i < n - 1 && line.len() > 0 && line[line.len() - 1] == '\r' {
                new.push('\r');
            }
            assert(new@ =~= env_line(key@, value@) + own_ending(all, i as int));
            new
        } else {
            line.clone()
        };
        assert(new@ =~= replaced(all, key@, value@)[i as int]);
        out.push(new);
        assert(text::views(out@) =~= text::views(before).push(new@));
        assert(replaced(all, key@, value@).take(i + 1) =~= replaced(all, key@, value@).take(
            i as int,
        ).push(new@));
    }
    assert(replaced(all, key@, value@).take(n as int) =~= replaced(all, key@, value@));
    assert(found == is_set(all, key@));
    if !found {
        assert(text::views(out@) =~= all);
        let line = chars_of(entry.as_str());
        assert(all.last() == lines@[n - 1]@);
        let ended = lines[n - 1].len() == 0;
        if ended {
            let _rest = out.pop();
            assert(text::views(out@) =~= all.drop_last());
        }
        let ghost before = out@;
        out.push(line);
        assert(text::views(out@) =~= text::views(before).push(line@));
        if ended && n > 1 {
            let ghost before = out@;
            out.push(Vec::new());
            assert(text::views(out@) =~= text::views(before).push(Seq::empty()));
        }
        assert(text::views(out@) =~= appended(all, line@));
    }
    join_chars(&out, "\n")
}

/// The environment file with the tokens of the configuration.
pub open spec fn env_with_tokens(
    content: Seq<char>,
    access_token: Seq<char>,
    refresh_token: Option<Seq<char>>,
) -> Seq<char> {
    let updated = env_with(content, "CTRADER_ACCESS_TOKEN"@, access_token);
    match refresh_token {
        Some(token) => env_with(updated, "CTRADER_REFRESH_TOKEN"@, token),
        None => updated,
    }
}

/// What is to be written to the environment file so that it has the tokens of
/// the configuration; nothing if it has them.
pub fn persist_rotated_tokens(config: &Config, original: &str) -> (r: Option<String>)
    ensures
        ({
            let updated = env_with_tokens(
                original@,
                config@.access_token,
                config@.refresh_token,
            );
            match r {
                Some(content) => content@ == updated && updated != original@,
                None => updated == original@,
            }
        }),
{
    let mut updated = replace_env_key(
        original,
        "CTRADER_ACCESS_TOKEN",
        config.access_token.as_str(),
    );
    if let Some(token) = &config.refresh_token {
        updated = replace_env_key(updated.as_str(), "CTRADER_REFRESH_TOKEN", token.as_str());
    }
    if same_text(updated.as_str(), original) {
        None
    } else {
        Some(updated)
    }
}

// ------------------------------------------- laws of the environment file

/// Whether a text can stand for a key: it holds no line feed, and a line that
/// starts with it is not trimmed and is no comment.
pub open spec fn is_key(key: Seq<char>) -> bool {
    &&& !key.contains('\n')
    &&& key.len() > 0 ==> !text::is_white_space(key[0]) && key[0] != '#'
}

/// Whether a text can stand for a value: it holds no line ending.
pub open spec fn is_value(value: Seq<char>) -> bool {
    !value.contains('\n') && !text::ends_with(value, '\r')
}

/// A line without the carriage return of its ending.
pub open spec fn line_text(line: Seq<char>) -> Seq<char> {
    if text::ends_with(line, '\r') {
        line.drop_last()
    } else {
        line
    }
}

/// Whether the line is the new line of the key, with an ending or without.
spec fn is_entry(line: Seq<char>, key: Seq<char>, value: Seq<char>) -> bool {
    line == env_line(key, value) || line == env_line(key, value) + seq!['\r']
}

proof fn lemma_entry(line: Seq<char>, key: Seq<char>, value: Seq<char>)
    requires
        is_key(key),
        is_entry(line, key, value),
    ensures
        sets_key(line, key),
        !value.contains('\n') ==> !line.contains('\n'),
        is_value(value) ==> line_text(line) == env_line(key, value),
        is_value(value) ==> (text::ends_with(line, '\r') <==> line == env_line(key, value)
            + seq!['\r']),
        line.len() > 0,
{
    let entry = env_line(key, value);
    let prefix = key + seq!['='];
    assert(line[0] == if key.len() > 0 {
        key[0]
    } else {
        '='
    });
    assert(text::trim_start(line) == line);
    assert(line.take(prefix.len() as int) =~= prefix);
    assert(line.take(1)[0] == line[0]);
    assert(seq!['#'][0] == '#');
    if line.contains('\n') {
        let k = choose|k: int| 0 <= k < line.len() && line[k] == '\n';
        if k < key.len() {
            assert(key[k] == '\n');
        } else if key.len() < k < entry.len() {
            assert(value[k - key.len() - 1] == '\n');
        }
    }
    assert(entry.last() == if value.len() > 0 {
        value.last()
    } else {
        '='
    });
    assert((entry + seq!['\r']).drop_last() =~= entry);
}

/// What stands at the place of a line that set the key.
proof fn lemma_new_line(lines: Seq<Seq<char>>, key: Seq<char>, value: Seq<char>, i: int)
    requires
        0 <= i < lines.len(),
        sets_key(lines[i], key),
    ensures
        is_entry(replaced(lines, key, value)[i], key, value),
{
    assert(env_line(key, value) + Seq::<char>::empty() =~= env_line(key, value));
}

/// The lines of the new file are the lines of the old one with the key set:
/// nothing else is added, dropped or changed.
pub proof fn law_file_reads_back(content: Seq<char>, key: Seq<char>, value: Seq<char>)
    requires
        is_key(key),
        !value.contains('\n'),
    ensures
        file_lines(env_with(content, key, value)) == with_key(file_lines(content), key, value),
{
    let lines = file_lines(content);
    let after = with_key(lines, key, value);
    let entry = env_line(key, value);
    text::lemma_split_len(content, '\n');
    text::lemma_split_pieces(content, '\n');
    lemma_entry(entry, key, value);
    assert forall|i: int| 0 <= i < after.len() implies !(#[trigger] after[i]).contains('\n') by {
        if is_set(lines, key) {
            if sets_key(lines[i], key) {
                lemma_new_line(lines, key, value, i);
                lemma_entry(after[i], key, value);
            } else {
                assert(after[i] == lines[i]);
            }
        } else if i < lines.len() && after[i] == lines[i] {
            assert(!lines[i].contains('\n'));
        }
    }
    text::lemma_split_join(after, '\n');
}

/// After a key is set, a line sets it, and no line sets it to anything else.
pub proof fn law_key_is_set(content: Seq<char>, key: Seq<char>, value: Seq<char>)
    requires
        is_key(key),
        is_value(value),
    ensures
        is_set(file_lines(env_with(content, key, value)), key),
        forall|i: int|
            0 <= i < file_lines(env_with(content, key, value)).len() && sets_key(
                #[trigger] file_lines(env_with(content, key, value))[i],
                key,
            ) ==> line_text(file_lines(env_with(content, key, value))[i]) == env_line(key, value),
{
    law_file_reads_back(content, key, value);
    text::lemma_split_len(content, '\n');
    lemma_lines_with_key(file_lines(content), key, value);
}

proof fn lemma_lines_with_key(lines: Seq<Seq<char>>, key: Seq<char>, value: Seq<char>)
    requires
        lines.len() > 0,
        is_key(key),
        is_value(value),
    ensures
        is_set(with_key(lines, key, value), key),
        forall|i: int|
            0 <= i < with_key(lines, key, value).len() && sets_key(
                #[trigger] with_key(lines, key, value)[i],
                key,
            ) ==> is_entry(with_key(lines, key, value)[i], key, value) && line_text(
                with_key(lines, key, value)[i],
            ) == env_line(key, value),
{
    let after = with_key(lines, key, value);
    let entry = env_line(key, value);
    lemma_entry(entry, key, value);
    if is_set(lines, key) {
        let k = choose|k: int| 0 <= k < lines.len() && sets_key(#[trigger] lines[k], key);
        lemma_new_line(lines, key, value, k);
        lemma_entry(after[k], key, value);
        assert(sets_key(after[k], key));
    } else {
        lemma_appended(lines, entry);
        let at = appended_at(lines);
        assert(after[at] == entry);
        assert(sets_key(after[at], key));
    }
    assert forall|i: int| 0 <= i < after.len() && sets_key(#[trigger] after[i], key) implies is_entry(
        after[i],
        key,
        value,
    ) && line_text(after[i]) == env_line(key, value) by {
        if is_set(lines, key) {
            if sets_key(lines[i], key) {
                lemma_new_line(lines, key, value, i);
            }
        } else {
            lemma_appended(lines, entry);
        }
        lemma_entry(after[i], key, value);
    }
}

/// The place of an appended line.
spec fn appended_at(lines: Seq<Seq<char>>) -> int {
    if lines.last().len() > 0 {
        lines.len() as int
    } else {
        lines.len() - 1
    }
}

proof fn lemma_appended(lines: Seq<Seq<char>>, line: Seq<char>)
    requires
        lines.len() > 0,
    ensures
        0 <= appended_at(lines) < appended(lines, line).len(),
        appended(lines, line)[appended_at(lines)] == line,
        forall|i: int| 0 <= i < appended_at(lines) ==> #[trigger] appended(lines, line)[i] == lines[i],
        forall|i: int|
            appended_at(lines) < i < appended(lines, line).len() ==> (#[trigger] appended(
                lines,
                line,
            )[i]).len() == 0,
{
}

/// Setting a key keeps every other line in its place, character for
/// character. Among these are all comments and blank lines.
pub proof fn law_other_lines_are_kept(
    content: Seq<char>,
    key: Seq<char>,
    value: Seq<char>,
    i: int,
)
    requires
        is_key(key),
        !value.contains('\n'),
        0 <= i < file_lines(content).len(),
        // What follows a last line feed is a line only if it is not empty.
        i < file_lines(content).len() - 1 || file_lines(content)[i].len() > 0,
    ensures
        !sets_key(file_lines(content)[i], key) ==> file_lines(env_with(content, key, value))[i]
            == file_lines(content)[i],
        text::trim_start(file_lines(content)[i]).len() == 0 || text::trim_start(
            file_lines(content)[i],
        )[0] == '#' ==> file_lines(env_with(content, key, value))[i] == file_lines(content)[i],
{
    let lines = file_lines(content);
    law_file_reads_back(content, key, value);
    text::lemma_split_len(content, '\n');
    lemma_appended(lines, env_line(key, value));
    let start = text::trim_start(lines[i]);
    if start.len() > 0 && start[0] == '#' {
        assert(start.take(1) =~= seq!['#']);
    }
}

/// A key that is not set is appended to the file, which otherwise stays as it
/// is, character for character.
pub proof fn law_missing_key_is_appended(content: Seq<char>, key: Seq<char>, value: Seq<char>)
    requires
        !is_set(file_lines(content), key),
    ensures
        env_with(content, key, value) == (if content.len() == 0 {
            env_line(key, value)
        } else if content.last() == '\n' {
            content + env_line(key, value) + seq!['\n']
        } else {
            content + seq!['\n'] + env_line(key, value)
        }),
{
    let lines = file_lines(content);
    let entry = env_line(key, value);
    let sep = seq!['\n'];
    text::lemma_split_len(content, '\n');
    text::lemma_join_split(content, '\n');
    if content.len() == 0 {
        assert(appended(lines, entry) =~= seq![entry]);
    } else if content.last() == '\n' {
        let init = content.drop_last();
        text::lemma_split_len(init, '\n');
        text::lemma_join_split(init, '\n');
        assert(lines.drop_last() =~= file_lines(init));
        let one = file_lines(init).push(entry);
        assert(one.drop_last() =~= file_lines(init));
        assert(text::join(one, sep) == init + sep + entry);
        let two = one.push(Seq::empty());
        assert(two.drop_last() =~= one);
        assert(text::join(two, sep) =~= init + sep + entry + sep);
        assert(init + sep =~= content);
    } else {
        let after = lines.push(entry);
        assert(lines.last().len() > 0);
        assert(after.drop_last() =~= lines);
    }
}

proof fn lemma_one_key(s: Seq<char>, a: Seq<char>, b: Seq<char>)
    requires
        !a.contains('='),
        !b.contains('='),
        text::starts_with(s, a + seq!['=']),
        text::starts_with(s, b + seq!['=']),
    ensures
        a == b,
{
    let pa = a + seq!['='];
    let pb = b + seq!['='];
    assert forall|k: int| 0 <= k < pa.len() implies s[k] == pa[k] by {
        assert(s.take(pa.len() as int)[k] == s[k]);
    }
    assert forall|k: int| 0 <= k < pb.len() implies s[k] == pb[k] by {
        assert(s.take(pb.len() as int)[k] == s[k]);
    }
    if a.len() < b.len() {
        assert(s[a.len() as int] == pa[a.len() as int]);
        assert(s[a.len() as int] == pb[a.len() as int]);
        assert(b[a.len() as int] == '=');
    } else if b.len() < a.len() {
        assert(s[b.len() as int] == pb[b.len() as int]);
        assert(s[b.len() as int] == pa[b.len() as int]);
        assert(a[b.len() as int] == '=');
    } else {
        assert forall|k: int| 0 <= k < a.len() implies a[k] == b[k] by {
            assert(s[k] == pa[k]);
            assert(s[k] == pb[k]);
        }
        assert(a =~= b);
    }
}

/// Setting one key neither changes the lines that set another nor adds one,
/// for keys without an equals sign.
pub proof fn law_keys_are_apart(
    content: Seq<char>,
    key: Seq<char>,
    other: Seq<char>,
    value: Seq<char>,
    i: int,
)
    requires
        is_key(other),
        !value.contains('\n'),
        !key.contains('='),
        !other.contains('='),
        key != other,
        0 <= i < file_lines(env_with(content, other, value)).len(),
    ensures
        sets_key(file_lines(env_with(content, other, value))[i], key) <==> i < file_lines(
            content,
        ).len() && sets_key(file_lines(content)[i], key),
        i < file_lines(content).len() && sets_key(file_lines(content)[i], key) ==> file_lines(
            env_with(content, other, value),
        )[i] == file_lines(content)[i],
{
    let lines = file_lines(content);
    let after = with_key(lines, other, value);
    let entry = env_line(other, value);
    law_file_reads_back(content, other, value);
    text::lemma_split_len(content, '\n');
    lemma_appended(lines, entry);
    lemma_entry(entry, other, value);
    if i < lines.len() && sets_key(lines[i], other) {
        lemma_new_line(lines, other, value, i);
        lemma_entry(replaced(lines, other, value)[i], other, value);
        if sets_key(lines[i], key) {
            lemma_one_key(text::trim_start(lines[i]), key, other);
        }
    }
    if sets_key(after[i], key) && sets_key(after[i], other) {
        lemma_one_key(text::trim_start(after[i]), key, other);
    }
}

/// The last value that a key is set to is the one that counts: to set it
/// twice gives the file that setting it to the second value gives.
pub proof fn law_last_value_wins(
    content: Seq<char>,
    key: Seq<char>,
    first: Seq<char>,
    second: Seq<char>,
)
    requires
        is_key(key),
        is_value(first),
    ensures
        env_with(env_with(content, key, first), key, second) == env_with(content, key, second),
{
    let lines = file_lines(content);
    let once = with_key(lines, key, first);
    law_file_reads_back(content, key, first);
    text::lemma_split_len(content, '\n');
    lemma_lines_with_key(lines, key, first);
    lemma_entry(env_line(key, first), key, first);
    let twice = with_key(once, key, second);
    let want = with_key(lines, key, second);
    assert(env_line(key, second) + Seq::<char>::empty() =~= env_line(key, second));
    if is_set(lines, key) {
        assert forall|i: int| 0 <= i < lines.len() implies twice[i] == want[i] by {
            if sets_key(lines[i], key) {
                lemma_new_line(lines, key, first, i);
                lemma_entry(once[i], key, first);
                assert(env_line(key, first) + Seq::<char>::empty() =~= env_line(key, first));
                assert(own_ending(once, i) =~= own_ending(lines, i));
            }
        }
        assert(twice =~= want);
    } else {
        lemma_appended(lines, env_line(key, first));
        lemma_appended(lines, env_line(key, second));
        let at = appended_at(lines);
        assert(once[at] == env_line(key, first));
        assert(sets_key(once[at], key));
        assert(!text::ends_with(once[at], '\r'));
        assert forall|i: int| 0 <= i < once.len() implies twice[i] == want[i] by {
            if i < at {
                assert(once[i] == lines[i]);
                assert(!sets_key(lines[i], key));
            } else if i > at {
                lemma_empty_sets_nothing(once[i], key);
                assert(once[i] =~= want[i]);
            }
        }
        assert(twice =~= want);
    }
}

proof fn lemma_empty_sets_nothing(line: Seq<char>, key: Seq<char>)
    requires
        line.len() == 0,
    ensures
        !sets_key(line, key),
{
}

/// After the tokens are written, the file sets the access token and the
/// refresh token to the new ones, and no line sets either to anything else.
pub proof fn law_both_tokens_are_written(
    content: Seq<char>,
    access_token: Seq<char>,
    refresh_token: Seq<char>,
)
    requires
        is_value(access_token),
        is_value(refresh_token),
    ensures
        ({
            let lines = file_lines(
                env_with_tokens(content, access_token, Some(refresh_token)),
            );
            let access_key = "CTRADER_ACCESS_TOKEN"@;
            let refresh_key = "CTRADER_REFRESH_TOKEN"@;
            &&& is_set(lines, access_key)
            &&& is_set(lines, refresh_key)
            &&& forall|i: int|
                0 <= i < lines.len() && sets_key(#[trigger] lines[i], access_key) ==> line_text(
                    lines[i],
                ) == env_line(access_key, access_token)
            &&& forall|i: int|
                0 <= i < lines.len() && sets_key(#[trigger] lines[i], refresh_key) ==> line_text(
                    lines[i],
                ) == env_line(refresh_key, refresh_token)
        }),
{
    let access_key = "CTRADER_ACCESS_TOKEN"@;
    let refresh_key = "CTRADER_REFRESH_TOKEN"@;
    reveal_strlit("CTRADER_ACCESS_TOKEN");
    reveal_strlit("CTRADER_REFRESH_TOKEN");
    assert(access_key[8] == 'A' && refresh_key[8] == 'R');
    assert(access_key[0] == 'C' && refresh_key[0] == 'C');
    assert(is_key(access_key) && !access_key.contains('='));
    assert(is_key(refresh_key) && !refresh_key.contains('='));
    let updated = env_with(content, access_key, access_token);
    let first = file_lines(updated);
    let lines = file_lines(env_with(updated, refresh_key, refresh_token));
    law_key_is_set(content, access_key, access_token);
    law_key_is_set(updated, refresh_key, refresh_token);
    law_file_reads_back(updated, refresh_key, refresh_token);
    text::lemma_split_len(updated, '\n');
    lemma_appended(first, env_line(refresh_key, refresh_token));
    let k = choose|k: int| 0 <= k < first.len() && sets_key(#[trigger] first[k], access_key);
    law_keys_are_apart(updated, access_key, refresh_key, refresh_token, k);
    assert(sets_key(lines[k], access_key));
    assert forall|i: int|
        0 <= i < lines.len() && sets_key(#[trigger] lines[i], access_key) implies line_text(lines[i])
        == env_line(access_key, access_token) by {
        law_keys_are_apart(updated, access_key, refresh_key, refresh_token, i);
    }
}

// ------------------------------------------------ laws of single messages

/// A message reports an error where it is one of the two error answers: which
/// of them, with the code and the description that it has, or that it has
/// none.
pub proof fn law_errors_are_reported(msg: AuthMessage)
    ensures
        reported_error(msg) is Some <==> msg.payload_type == proto::ERROR_RES || msg.payload_type
            == proto::OA_ERROR_RES,
        match (reported_error(msg), msg.payload) {
            (
                Some(AuthErrorView::Server { error_code, description }),
                AuthPayload::Error(err),
            ) => {
                &&& msg.payload_type == proto::ERROR_RES
                &&& error_code == err.error_code@
                &&& err.description matches Some(d) ==> description == d@
                &&& err.description is None ==> description.len() == 0
            },
            (
                Some(AuthErrorView::OpenApi { error_code, description }),
                AuthPayload::Error(err),
            ) => {
                &&& msg.payload_type == proto::OA_ERROR_RES
                &&& error_code == err.error_code@
                &&& err.description matches Some(d) ==> description == d@
                &&& err.description is None ==> description.len() == 0
            },
            (Some(AuthErrorView::ServerWithoutPayload), p) => msg.payload_type == proto::ERROR_RES
                && p !is Error,
            (Some(AuthErrorView::OpenApiWithoutPayload), p) => msg.payload_type
                == proto::OA_ERROR_RES && p !is Error,
            (Some(_), _) => false,
            (None, _) => true,
        },
{
}

/// The account step succeeds with its answer. An error of the Open API with
/// the code for an invalid access token is told apart from other errors, and
/// any other message is not expected.
pub proof fn law_answers_to_the_account_step(msg: AuthMessage)
    ensures
        match account_outcome(msg) {
            Ok(AccountAuthView::Authorized) => msg.payload_type == proto::OA_ACCOUNT_AUTH_RES,
            Ok(AccountAuthView::AccessTokenInvalid { description }) => {
                &&& msg.payload_type == proto::OA_ERROR_RES
                &&& match msg.payload {
                    AuthPayload::Error(err) => {
                        &&& err.error_code@ == "CH_ACCESS_TOKEN_INVALID"@
                        &&& err.description matches Some(d) ==> description == d@
                        &&& err.description is None ==> description.len() == 0
                    },
                    _ => false,
                }
            },
            Err(AuthErrorView::OpenApi { error_code, description }) => {
                &&& reported_error(msg) == Some(AuthErrorView::OpenApi { error_code, description })
                &&& error_code != "CH_ACCESS_TOKEN_INVALID"@
            },
            Err(AuthErrorView::OpenApiWithoutPayload) => reported_error(msg) == Some(
                AuthErrorView::OpenApiWithoutPayload,
            ),
            Err(AuthErrorView::Unexpected { awaited, payload_type }) => {
                &&& awaited == proto::OA_ACCOUNT_AUTH_RES
                &&& payload_type == msg.payload_type
                &&& payload_type != proto::OA_ACCOUNT_AUTH_RES
                &&& payload_type != proto::OA_ERROR_RES
            },
            Err(_) => false,
        },
{
}

/// A refresh gives the tokens of its answer, or empty ones where that has no
/// payload. An error is reported as such, and any other message is not
/// expected.
pub proof fn law_answers_to_a_refresh(msg: AuthMessage)
    ensures
        match refresh_outcome(msg) {
            Ok(tokens) => {
                &&& msg.payload_type == proto::OA_REFRESH_TOKEN_RES
                &&& match msg.payload {
                    AuthPayload::Tokens(t) => tokens.access_token == t.access_token@
                        && tokens.refresh_token == t.refresh_token@ && tokens.expires_in
                        == t.expires_in,
                    _ => tokens.access_token.len() == 0 && tokens.refresh_token.len() == 0
                        && tokens.expires_in == 0,
                }
            },
            Err(e) => {
                &&& msg.payload_type != proto::OA_REFRESH_TOKEN_RES
                &&& reported_error(msg) matches Some(reported) ==> e == reported
                &&& reported_error(msg) is None ==> e == (AuthErrorView::Unexpected {
                    awaited: proto::OA_REFRESH_TOKEN_RES,
                    payload_type: msg.payload_type,
                })
            },
        },
{
}

/// What is asked for in each phase: the application step with the client's id
/// and secret, the account step with the account and the access token, and a
/// refresh with the refresh token. Signed in, nothing is asked for.
pub proof fn law_what_is_asked_for(config: config::ConfigView, phase: AuthPhaseView)
    ensures
        match auth_request(config, phase) {
            Some(proto::RequestView::ApplicationAuth { client_id, client_secret }) => phase
                is Application && client_id == config.client_id && client_secret
                == config.client_secret,
            Some(proto::RequestView::AccountAuth { account_id, access_token }) => (phase is Account
                || phase is Retry) && account_id == config.account_id && access_token
                == config.access_token,
            Some(proto::RequestView::RefreshToken { refresh_token }) => phase is Refresh
                && config.refresh_token == Some(refresh_token),
            Some(_) => false,
            None => phase is Done || phase is Refresh && config.refresh_token is None,
        },
{
}

/// The application step leads to the account step with its answer. An error
/// ends it, and so does any other message.
pub proof fn law_application_step(config: config::ConfigView, msg: AuthMessage)
    ensures
        match next_auth_phase(config, AuthPhaseView::Application, msg) {
            Ok(next) => next is Account && msg.payload_type == proto::OA_APPLICATION_AUTH_RES,
            Err(e) => {
                &&& msg.payload_type != proto::OA_APPLICATION_AUTH_RES
                &&& reported_error(msg) matches Some(reported) ==> e == reported
                &&& reported_error(msg) is None ==> e == (AuthErrorView::Unexpected {
                    awaited: proto::OA_APPLICATION_AUTH_RES,
                    payload_type: msg.payload_type,
                })
            },
        },
{
}

/// The account step signs in, leads to a refresh, or fails: with the
/// description of the refusal where the access token is invalid and there is
/// no refresh token, and with the reported error or the unexpected message
/// else.
pub proof fn law_account_step(config: config::ConfigView, msg: AuthMessage, refusal: Seq<char>)
    ensures
        match next_auth_phase(config, AuthPhaseView::Account, msg) {
            Ok(AuthPhaseView::Done) => msg.payload_type == proto::OA_ACCOUNT_AUTH_RES,
            Ok(AuthPhaseView::Refresh { refusal: description }) => refuses_token(msg, description)
                && config.refresh_token is Some,
            Ok(_) => false,
            Err(AuthErrorView::AccessTokenInvalid { description }) => refuses_token(
                msg,
                description,
            ) && config.refresh_token is None,
            Err(e) => account_outcome(msg) == Err::<AccountAuthView, AuthErrorView>(e),
        },
        match next_auth_phase(config, AuthPhaseView::Retry { refusal }, msg) {
            Ok(next) => next is Done && msg.payload_type == proto::OA_ACCOUNT_AUTH_RES,
            Err(AuthErrorView::AccessTokenInvalidAfterRefresh { description }) => description
                == refusal && account_outcome(msg) matches Ok(
                AccountAuthView::AccessTokenInvalid { .. },
            ),
            Err(e) => account_outcome(msg) == Err::<AccountAuthView, AuthErrorView>(e),
        },
        match next_auth_phase(config, AuthPhaseView::Refresh { refusal }, msg) {
            Ok(next) => next == (AuthPhaseView::Retry { refusal }) && msg.payload_type
                == proto::OA_REFRESH_TOKEN_RES,
            Err(e) => refresh_outcome(msg) == Err::<RefreshedTokensView, AuthErrorView>(e),
        },
{
}

/// The tokens are renewed, and are to be written down, exactly with the answer
/// to a refresh. The configuration changes with that and with nothing else,
/// and in its two tokens only.
pub proof fn law_renewal(config: config::ConfigView, phase: AuthPhaseView, msg: AuthMessage)
    ensures
        renews_tokens(phase, msg) <==> phase is Refresh && msg.payload_type
            == proto::OA_REFRESH_TOKEN_RES,
        !renews_tokens(phase, msg) ==> config_after(config, phase, msg) == config,
        ({
            let after = config_after(config, phase, msg);
            &&& after == (config::ConfigView {
                access_token: after.access_token,
                refresh_token: after.refresh_token,
                ..config
            })
            &&& renews_tokens(phase, msg) ==> match msg.payload {
                AuthPayload::Tokens(t) => after.access_token == t.access_token@
                    && after.refresh_token == Some(t.refresh_token@),
                _ => after.access_token.len() == 0 && after.refresh_token == Some(
                    Seq::<char>::empty(),
                ),
            }
        }),
{
}

/// In each phase an error is read as an error, where it is looked at, and new
/// tokens as tokens. Nothing else is read.
pub proof fn law_messages_are_read_as_what_they_are(phase: AuthPhaseView, payload_type: u32)
    ensures
        phase.form(payload_type) == AuthForm::Error <==> payload_type == proto::OA_ERROR_RES
            || payload_type == proto::ERROR_RES && (phase is Application || phase is Refresh),
        phase.form(payload_type) == AuthForm::Tokens <==> phase is Refresh && payload_type
            == proto::OA_REFRESH_TOKEN_RES,
{
}

/// The line that sets a key is the key, an equals sign and the value.
pub proof fn law_line_of_a_key(key: Seq<char>, value: Seq<char>)
    ensures
        env_line(key, value).len() == key.len() + 1 + value.len(),
        env_line(key, value).take(key.len() as int) == key,
        env_line(key, value)[key.len() as int] == '=',
        env_line(key, value).skip(key.len() as int + 1) == value,
{
    assert(env_line(key, value).take(key.len() as int) =~= key);
    assert(env_line(key, value).skip(key.len() as int + 1) =~= value);
}

/// A line sets a key where, after white space, it starts with the key and an
/// equals sign; a comment does not.
pub proof fn law_which_lines_set_a_key(line: Seq<char>, key: Seq<char>, k: int)
    requires
        0 <= k <= line.len(),
        forall|i: int| 0 <= i < k ==> text::is_white_space(#[trigger] line[i]),
        k < line.len() ==> !text::is_white_space(line[k]),
    ensures
        sets_key(line, key) <==> k + key.len() < line.len() && line.subrange(k, k + key.len())
            == key && line[k + key.len()] == '=' && line[k] != '#',
{
    let n = text::law_trim_start(line);
    if n < k {
        assert(text::is_white_space(line[n]));
    } else if k < n {
        assert(text::is_white_space(line[k]));
    }
    let start = line.skip(k);
    let head = key + seq!['='];
    if text::starts_with(start, head) {
        assert(start.take(head.len() as int)[key.len() as int] == '=');
        assert(start[key.len() as int] == line[k + key.len()]);
        assert(line.subrange(k, k + key.len()) =~= key) by {
            assert forall|i: int| 0 <= i < key.len() implies line[k + i] == #[trigger] key[i] by {
                assert(start.take(head.len() as int)[i] == head[i]);
                assert(start[i] == line[k + i]);
            }
        }
        if line[k] == '#' {
            assert(start.take(1) =~= seq!['#']);
        }
    }
    if text::starts_with(start, seq!['#']) {
        assert(start.take(1)[0] == '#');
        assert(start[0] == line[k]);
    }
    if k + key.len() < line.len() && line.subrange(k, k + key.len()) == key && line[k + key.len()]
        == '=' {
        assert forall|i: int| 0 <= i < head.len() implies start.take(head.len() as int)[i]
            == #[trigger] head[i] by {
            if i < key.len() {
                assert(line.subrange(k, k + key.len())[i] == key[i]);
            }
        }
        assert(start.take(head.len() as int) =~= head);
    }
}

/// Without a refresh token, the access token alone is written.
pub proof fn law_access_token_alone_is_written(content: Seq<char>, access_token: Seq<char>)
    requires
        is_value(access_token),
    ensures
        ({
            let lines = file_lines(env_with_tokens(content, access_token, None));
            let key = "CTRADER_ACCESS_TOKEN"@;
            &&& is_set(lines, key)
            &&& forall|i: int|
                0 <= i < lines.len() && sets_key(#[trigger] lines[i], key) ==> line_text(lines[i])
                    == env_line(key, access_token)
        }),
{
    let key = "CTRADER_ACCESS_TOKEN"@;
    reveal_strlit("CTRADER_ACCESS_TOKEN");
    assert(key[0] == 'C');
    assert(is_key(key));
    law_key_is_set(content, key, access_token);
}

/// What goes out while signing in: after the application step the account and
/// the access token, after a refused token the refresh token, and after a
/// refresh the account and the new access token. Nothing goes out after a
/// failure, nor once the account is signed in.
pub proof fn law_what_goes_out(config: config::ConfigView, phase: AuthPhaseView, msg: AuthMessage)
    requires
        !(phase is Done),
    ensures
        match request_after(config, phase, msg) {
            Some(proto::RequestView::AccountAuth { account_id, access_token }) => {
                &&& account_id == config.account_id
                &&& phase is Application && access_token == config.access_token || phase is Refresh
                    && match msg.payload {
                    AuthPayload::Tokens(t) => access_token == t.access_token@,
                    _ => access_token.len() == 0,
                }
            },
            Some(proto::RequestView::RefreshToken { refresh_token }) => phase is Account
                && config.refresh_token == Some(refresh_token),
            Some(_) => false,
            None => match next_auth_phase(config, phase, msg) {
                Ok(next) => next is Done,
                Err(_) => true,
            },
        },
        next_auth_phase(config, phase, msg) is Err ==> request_after(config, phase, msg) is None,
{
}

/// A line that sets a key keeps its ending: where it ended with a carriage
/// return before the line feed, the new one does, and else it does not.
pub proof fn law_line_endings_are_kept(
    content: Seq<char>,
    key: Seq<char>,
    value: Seq<char>,
    i: int,
)
    requires
        is_key(key),
        is_value(value),
        0 <= i < file_lines(content).len(),
        sets_key(file_lines(content)[i], key),
    ensures
        ({
            let before = file_lines(content);
            let after = file_lines(env_with(content, key, value));
            &&& after.len() == before.len()
            &&& line_text(after[i]) == env_line(key, value)
            &&& i < before.len() - 1 ==> (text::ends_with(after[i], '\r') <==> text::ends_with(
                before[i],
                '\r',
            ))
            &&& i == before.len() - 1 ==> after[i] == env_line(key, value)
        }),
{
    let lines = file_lines(content);
    law_file_reads_back(content, key, value);
    law_key_is_set(content, key, value);
    assert(is_set(lines, key));
    let entry = env_line(key, value);
    assert(entry + Seq::<char>::empty() =~= entry);
    assert(entry.last() == if value.len() > 0 {
        value.last()
    } else {
        '='
    });
    assert((entry + seq!['\r']).drop_last() =~= entry);
}

} // verus!
